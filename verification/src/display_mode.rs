//! Display mode management: how the presenter and audience windows are placed,
//! decided from CLI hints, the display configuration, and the detected monitors.
use crate::cache::RenderSize;
use crate::config::DisplayConfig;
use crate::text::{
    chars_of, is_word, parse_usize, parse_usize_spec, same_chars, string_of, to_unicode_lowercase,
    trim, trim_chars, lowercase,
};
use crate::ui::DisplayHints;
use vstd::prelude::*;

verus! {

/// Information about a connected display monitor, as the placement logic reads it.
#[derive(Debug)]
pub struct MonitorInfo {
    /// Unique identifier for this monitor (platform-specific).
    pub id: String,
    /// Human-readable name (e.g., "DELL U2718Q").
    pub name: String,
    /// Position on the virtual desktop, top-left corner (pixels).
    pub position: (i32, i32),
    /// Physical resolution (width, height in pixels).
    pub size: (u32, u32),
    /// Usable work area: x, y, width, height (pixels).
    pub work_area: (i32, i32, u32, u32),
    /// Whether this is the OS primary monitor.
    pub is_primary: bool,
}

impl MonitorInfo {
    /// A copy of the monitor record.
    pub fn copy(&self) -> (r: MonitorInfo)
        ensures
            r == *self,
    {
        MonitorInfo {
            id: self.id.clone(),
            name: self.name.clone(),
            position: self.position,
            size: self.size,
            work_area: self.work_area,
            is_primary: self.is_primary,
        }
    }
}

/// A copy of a list of monitors.
fn copy_monitors(ms: &Vec<MonitorInfo>) -> (r: Vec<MonitorInfo>)
    ensures
        r@ == ms@,
{
    let mut r: Vec<MonitorInfo> = Vec::new();
    let mut i: usize = 0;
    while i < ms.len()
        invariant
            i <= ms@.len(),
            r@ == ms@.take(i as int),
        decreases ms@.len() - i,
    {
        r.push(ms[i].copy());
        assert(ms@.take(i + 1) =~= ms@.take(i as int).push(ms@[i as int]));
        i += 1;
    }
    assert(ms@.take(ms@.len() as int) =~= ms@);
    r
}

/// The first monitor of `ms` that is (or is not) the primary one.
pub open spec fn first_with_primary(ms: Seq<MonitorInfo>, primary: bool) -> Option<MonitorInfo>
    decreases ms.len(),
{
    if ms.len() == 0 {
        None
    } else if ms[0].is_primary == primary {
        Some(ms[0])
    } else {
        first_with_primary(ms.drop_first(), primary)
    }
}

/// The first monitor of `ms` named `sel`, or whose id is `sel`.
pub open spec fn first_named(ms: Seq<MonitorInfo>, sel: Seq<char>) -> Option<MonitorInfo>
    decreases ms.len(),
{
    if ms.len() == 0 {
        None
    } else if ms[0].name@ == sel || ms[0].id@ == sel {
        Some(ms[0])
    } else {
        first_named(ms.drop_first(), sel)
    }
}

/// The first monitor of `ms` whose id is not `id`.
pub open spec fn first_other(ms: Seq<MonitorInfo>, id: Seq<char>) -> Option<MonitorInfo>
    decreases ms.len(),
{
    if ms.len() == 0 {
        None
    } else if ms[0].id@ != id {
        Some(ms[0])
    } else {
        first_other(ms.drop_first(), id)
    }
}

fn first_with_primary_in(ms: &Vec<MonitorInfo>, primary: bool) -> (r: Option<MonitorInfo>)
    ensures
        r == first_with_primary(ms@, primary),
{
    assert(ms@.skip(0) =~= ms@);
    let mut i: usize = 0;
    while i < ms.len()
        invariant
            i <= ms@.len(),
            first_with_primary(ms@, primary) == first_with_primary(ms@.skip(i as int), primary),
        decreases ms@.len() - i,
    {
        assert(ms@.skip(i as int)[0] == ms@[i as int]);
        assert(ms@.skip(i as int).drop_first() =~= ms@.skip(i + 1));
        if ms[i].is_primary == primary {
            return Some(ms[i].copy());
        }
        i += 1;
    }
    assert(ms@.skip(i as int) =~= Seq::<MonitorInfo>::empty());
    None
}

/// The OS primary monitor, if one is designated.
pub fn primary_monitor(monitors: &Vec<MonitorInfo>) -> (r: Option<MonitorInfo>)
    ensures
        r == first_with_primary(monitors@, true),
{
    first_with_primary_in(monitors, true)
}

/// A non-primary monitor (for the audience display in dual mode).
pub fn secondary_monitor(monitors: &Vec<MonitorInfo>) -> (r: Option<MonitorInfo>)
    ensures
        r == first_with_primary(monitors@, false),
{
    first_with_primary_in(monitors, false)
}

fn first_named_in(ms: &Vec<MonitorInfo>, sel: &Vec<char>) -> (r: Option<MonitorInfo>)
    ensures
        r == first_named(ms@, sel@),
{
    assert(ms@.skip(0) =~= ms@);
    let mut i: usize = 0;
    while i < ms.len()
        invariant
            i <= ms@.len(),
            first_named(ms@, sel@) == first_named(ms@.skip(i as int), sel@),
        decreases ms@.len() - i,
    {
        assert(ms@.skip(i as int)[0] == ms@[i as int]);
        assert(ms@.skip(i as int).drop_first() =~= ms@.skip(i + 1));
        let name = chars_of(ms[i].name.as_str());
        let id = chars_of(ms[i].id.as_str());
        if same_chars(&name, sel) || same_chars(&id, sel) {
            return Some(ms[i].copy());
        }
        i += 1;
    }
    assert(ms@.skip(i as int) =~= Seq::<MonitorInfo>::empty());
    None
}

fn first_other_in(ms: &Vec<MonitorInfo>, id: &Vec<char>) -> (r: Option<MonitorInfo>)
    ensures
        r == first_other(ms@, id@),
{
    assert(ms@.skip(0) =~= ms@);
    let mut i: usize = 0;
    while i < ms.len()
        invariant
            i <= ms@.len(),
            first_other(ms@, id@) == first_other(ms@.skip(i as int), id@),
        decreases ms@.len() - i,
    {
        assert(ms@.skip(i as int)[0] == ms@[i as int]);
        assert(ms@.skip(i as int).drop_first() =~= ms@.skip(i + 1));
        let other = chars_of(ms[i].id.as_str());
        if !same_chars(&other, id) {
            return Some(ms[i].copy());
        }
        i += 1;
    }
    assert(ms@.skip(i as int) =~= Seq::<MonitorInfo>::empty());
    None
}

/// The monitor a user-facing selector picks: a one-based position in the list
/// (`"1"`, `"2"`, ...), else the first monitor with that exact name or id.
pub open spec fn selected_monitor(ms: Seq<MonitorInfo>, sel: Seq<char>) -> Option<MonitorInfo> {
    match parse_usize_spec(sel) {
        Some(index) if index > 0 => if index - 1 < ms.len() {
            Some(ms[index - 1])
        } else {
            None
        },
        _ => first_named(ms, sel),
    }
}

fn select_monitor(ms: &Vec<MonitorInfo>, sel: &Vec<char>) -> (r: Option<MonitorInfo>)
    ensures
        r == selected_monitor(ms@, sel@),
{
    match parse_usize(sel) {
        Some(index) => {
            if index > 0 {
                if index - 1 < ms.len() {
                    return Some(ms[index - 1].copy());
                } else {
                    return None;
                }
            }
        },
        None => {},
    }
    first_named_in(ms, sel)
}

/// Find a monitor by a user-facing selector: an exact monitor name, an exact
/// monitor id, or a one-based position like `"1"`, `"2"` in the detected order.
pub fn find_by_selector(monitors: &Vec<MonitorInfo>, selector: &str) -> (r: Option<MonitorInfo>)
    ensures
        r == selected_monitor(monitors@, selector@),
{
    let sel = chars_of(selector);
    select_monitor(monitors, &sel)
}

/// How the application lays out presenter and audience windows.
#[derive(Debug)]
pub enum DisplayMode {
    /// Dual monitor: presenter console on one monitor, audience fullscreen on another.
    Dual { presenter_monitor: MonitorInfo, audience_monitor: MonitorInfo },
    /// Single window with presenter only (no audience viewport).
    Single,
    /// Audience as a normal resizable window (for screen sharing).
    ScreenShare,
}

/// Interactive recovery data when the configured audience monitor is unavailable.
#[derive(Debug)]
pub struct AudienceReassignmentPrompt {
    /// The configured monitor selector that could not be resolved.
    pub missing_selector: String,
    /// Non-primary monitor chosen as a temporary fallback, if any.
    pub attempted_fallback: Option<MonitorInfo>,
    /// Available monitors that the user could choose from.
    pub available_monitors: Vec<MonitorInfo>,
}

/// Result of display mode determination, including any warnings.
pub struct DisplayModeResult {
    /// Selected display mode.
    pub mode: DisplayMode,
    /// Human-readable warnings for recoverable monitor/config issues.
    pub warnings: Vec<String>,
    /// Recovery data when the configured audience monitor was unavailable.
    pub audience_reassignment: Option<AudienceReassignmentPrompt>,
}

/// The model of a reassignment prompt: missing selector, fallback, monitors.
pub type PromptModel = (Seq<char>, Option<MonitorInfo>, Seq<MonitorInfo>);

pub open spec fn prompt_model(p: Option<AudienceReassignmentPrompt>) -> Option<PromptModel> {
    match p {
        Some(p) => Some((p.missing_selector@, p.attempted_fallback, p.available_monitors@)),
        None => None,
    }
}

pub open spec fn texts(v: Seq<String>) -> Seq<Seq<char>> {
    v.map_values(|s: String| s@)
}

/// The monitor for the presenter console, given the audience monitor: the
/// configured one (or, when none is configured or found, the primary one) unless
/// it is the audience monitor; else the first other monitor; else the audience
/// monitor itself.
pub open spec fn presenter_for(config: DisplayConfig, ms: Seq<MonitorInfo>, audience: MonitorInfo) -> MonitorInfo {
    let sel = trim(config.presenter_monitor@);
    let configured = if sel.len() == 0 || sel == "auto"@ {
        None
    } else {
        selected_monitor(ms, sel)
    };
    let candidate = match configured {
        Some(c) => Some(c),
        None => first_with_primary(ms, true),
    };
    match candidate {
        Some(c) if c.id@ != audience.id@ => c,
        _ => match first_other(ms, audience.id@) {
            Some(c) => c,
            None => audience,
        },
    }
}

/// The names of the monitors, separated by `", "`.
pub open spec fn monitor_names(ms: Seq<MonitorInfo>) -> Seq<char>
    decreases ms.len(),
{
    if ms.len() == 0 {
        seq![]
    } else if ms.len() == 1 {
        ms[0].name@
    } else {
        monitor_names(ms.drop_last()) + ", "@ + ms.last().name@
    }
}

pub open spec fn missing_monitor_message(name: Seq<char>, ms: Seq<MonitorInfo>) -> Seq<char> {
    "Configured audience monitor '"@ + name + "' not found. Available: "@ + monitor_names(ms)
}

pub open spec fn single_mode_message() -> Seq<char> {
    "Single monitor detected — expected dual. Using single mode."@
}

/// Dual mode if an audience monitor can be found: the configured one, else a
/// non-primary one (with a warning and a reassignment prompt when the configured
/// one is missing); single mode, with a warning, otherwise.
pub open spec fn dual_resolution(config: DisplayConfig, ms: Seq<MonitorInfo>) -> (
    DisplayMode,
    Seq<Seq<char>>,
    Option<PromptModel>,
) {
    let name = config.audience_monitor@;
    let secondary = first_with_primary(ms, false);
    if name != "auto"@ && name.len() > 0 {
        match selected_monitor(ms, name) {
            Some(mon) => (
                DisplayMode::Dual {
                    presenter_monitor: presenter_for(config, ms, mon),
                    audience_monitor: mon,
                },
                seq![],
                None,
            ),
            None => {
                let prompt = Some((name, secondary, ms));
                match secondary {
                    Some(sec) => (
                        DisplayMode::Dual {
                            presenter_monitor: presenter_for(config, ms, sec),
                            audience_monitor: sec,
                        },
                        seq![missing_monitor_message(name, ms)],
                        prompt,
                    ),
                    None => (
                        DisplayMode::Single,
                        seq![missing_monitor_message(name, ms), single_mode_message()],
                        prompt,
                    ),
                }
            },
        }
    } else {
        match secondary {
            Some(sec) => (
                DisplayMode::Dual {
                    presenter_monitor: presenter_for(config, ms, sec),
                    audience_monitor: sec,
                },
                seq![],
                None,
            ),
            None => (DisplayMode::Single, seq![single_mode_message()], None),
        }
    }
}

/// The display mode: CLI flags first, then the configured mode (compared in
/// lower case), then dual mode if it can be had.
pub open spec fn display_decision(hints: DisplayHints, config: DisplayConfig, ms: Seq<MonitorInfo>) -> (
    DisplayMode,
    Seq<Seq<char>>,
    Option<PromptModel>,
) {
    if hints.force_single {
        (DisplayMode::Single, seq![], None)
    } else if hints.force_screen_share {
        (DisplayMode::ScreenShare, seq![], None)
    } else {
        let mode = lowercase(config.mode@);
        if mode == "single"@ {
            (DisplayMode::Single, seq![], None)
        } else if mode == "screen-share"@ || mode == "screenshare"@ || mode == "screen_share"@ {
            (DisplayMode::ScreenShare, seq![], None)
        } else {
            dual_resolution(config, ms)
        }
    }
}

fn resolve_presenter_monitor(config: &DisplayConfig, ms: &Vec<MonitorInfo>, audience: &MonitorInfo) -> (r:
    MonitorInfo)
    ensures
        r == presenter_for(*config, ms@, *audience),
{
    let raw = chars_of(config.presenter_monitor.as_str());
    let sel = trim_chars(&raw);
    let configured = if sel.len() == 0 || is_word(&sel, "auto") {
        None
    } else {
        select_monitor(ms, &sel)
    };
    let candidate = match configured {
        Some(c) => Some(c),
        None => primary_monitor(ms),
    };
    let audience_id = chars_of(audience.id.as_str());
    let kept = match candidate {
        Some(c) => {
            let cid = chars_of(c.id.as_str());
            if !same_chars(&cid, &audience_id) {
                Some(c)
            } else {
                None
            }
        },
        None => None,
    };
    match kept {
        Some(c) => c,
        None => match first_other_in(ms, &audience_id) {
            Some(c) => c,
            None => audience.copy(),
        },
    }
}

fn monitor_names_text(ms: &Vec<MonitorInfo>) -> (r: Vec<char>)
    ensures
        r@ == monitor_names(ms@),
{
    let mut r: Vec<char> = Vec::new();
    let mut i: usize = 0;
    while i < ms.len()
        invariant
            i <= ms@.len(),
            r@ == monitor_names(ms@.take(i as int)),
        decreases ms@.len() - i,
    {
        assert(ms@.take(i + 1).drop_last() =~= ms@.take(i as int));
        assert(ms@.take(i + 1).last() == ms@[i as int]);
        if i > 0 {
            crate::text::append_str(&mut r, ", ");
        } else {
            assert(ms@.take(1)[0] == ms@[0]);
        }
        crate::text::append_str(&mut r, ms[i].name.as_str());
        i += 1;
    }
    assert(ms@.take(ms@.len() as int) =~= ms@);
    r
}

fn push_text(warnings: &mut Vec<String>, text: &Vec<char>)
    ensures
        texts(final(warnings)@) == texts(old(warnings)@).push(text@),
{
    warnings.push(string_of(text));
    assert(texts(warnings@) =~= texts(old(warnings)@).push(text@));
}

/// Attempt to resolve dual mode, falling back gracefully.
fn resolve_dual_mode(config: &DisplayConfig, monitors: &Vec<MonitorInfo>, warnings: &mut Vec<String>) -> (r: (
    DisplayMode,
    Option<AudienceReassignmentPrompt>,
))
    ensures
        r.0 == dual_resolution(*config, monitors@).0,
        texts(final(warnings)@) == texts(old(warnings)@) + dual_resolution(*config, monitors@).1,
        prompt_model(r.1) == dual_resolution(*config, monitors@).2,
{
    let ghost res = dual_resolution(*config, monitors@);
    let name = chars_of(config.audience_monitor.as_str());
    let single_text = chars_of("Single monitor detected — expected dual. Using single mode.");
    if !is_word(&name, "auto") && name.len() > 0 {
        match select_monitor(monitors, &name) {
            Some(mon) => {
                let presenter = resolve_presenter_monitor(config, monitors, &mon);
                assert(texts(warnings@) =~= texts(old(warnings)@) + res.1);
                return (DisplayMode::Dual { presenter_monitor: presenter, audience_monitor: mon }, None);
            },
            None => {},
        }
        let mut msg = chars_of("Configured audience monitor '");
        crate::text::append_chars(&mut msg, &name);
        crate::text::append_str(&mut msg, "' not found. Available: ");
        let names = monitor_names_text(monitors);
        crate::text::append_chars(&mut msg, &names);
        assert(msg@ == missing_monitor_message(name@, monitors@));
        push_text(warnings, &msg);
        let attempted_fallback = secondary_monitor(monitors);
        let fallback_copy = match &attempted_fallback {
            Some(m) => Some(m.copy()),
            None => None,
        };
        let prompt = Some(
            AudienceReassignmentPrompt {
                missing_selector: config.audience_monitor.clone(),
                attempted_fallback: fallback_copy,
                available_monitors: copy_monitors(monitors),
            },
        );
        match attempted_fallback {
            Some(secondary) => {
                let presenter = resolve_presenter_monitor(config, monitors, &secondary);
                assert(texts(warnings@) =~= texts(old(warnings)@) + res.1);
                return (
                    DisplayMode::Dual { presenter_monitor: presenter, audience_monitor: secondary },
                    prompt,
                );
            },
            None => {
                push_text(warnings, &single_text);
                assert(texts(warnings@) =~= texts(old(warnings)@) + res.1);
                return (DisplayMode::Single, prompt);
            },
        }
    }
    match secondary_monitor(monitors) {
        Some(secondary) => {
            let presenter = resolve_presenter_monitor(config, monitors, &secondary);
            assert(texts(warnings@) =~= texts(old(warnings)@) + res.1);
            (DisplayMode::Dual { presenter_monitor: presenter, audience_monitor: secondary }, None)
        },
        None => {
            push_text(warnings, &single_text);
            assert(texts(warnings@) =~= texts(old(warnings)@) + res.1);
            (DisplayMode::Single, None)
        },
    }
}

/// Determine the initial display mode from CLI hints, the display
/// configuration, and the detected monitors.
pub fn determine_display_mode(hints: DisplayHints, config: &DisplayConfig, monitors: &Vec<MonitorInfo>) -> (r:
    DisplayModeResult)
    ensures
        r.mode == display_decision(hints, *config, monitors@).0,
        texts(r.warnings@) == display_decision(hints, *config, monitors@).1,
        prompt_model(r.audience_reassignment) == display_decision(hints, *config, monitors@).2,
{
    let mut warnings: Vec<String> = Vec::new();
    assert(texts(warnings@) =~= Seq::<Seq<char>>::empty());
    if hints.force_single {
        return DisplayModeResult { mode: DisplayMode::Single, warnings, audience_reassignment: None };
    }
    if hints.force_screen_share {
        return DisplayModeResult {
            mode: DisplayMode::ScreenShare,
            warnings,
            audience_reassignment: None,
        };
    }
    let raw = chars_of(config.mode.as_str());
    let mode = to_unicode_lowercase(&raw);
    if is_word(&mode, "single") {
        DisplayModeResult { mode: DisplayMode::Single, warnings, audience_reassignment: None }
    } else if is_word(&mode, "screen-share") || is_word(&mode, "screenshare") || is_word(
        &mode,
        "screen_share",
    ) {
        DisplayModeResult { mode: DisplayMode::ScreenShare, warnings, audience_reassignment: None }
    } else {
        let (mode, prompt) = resolve_dual_mode(config, monitors, &mut warnings);
        assert(texts(warnings@) =~= dual_resolution(*config, monitors@).1);
        DisplayModeResult { mode, warnings, audience_reassignment: prompt }
    }
}

/// The dual-mode assignment with presenter and audience monitors exchanged when
/// the displays were swapped at run time; other modes as they are.
pub open spec fn effective_mode(mode: DisplayMode, displays_swapped: bool) -> DisplayMode {
    match mode {
        DisplayMode::Dual { presenter_monitor, audience_monitor } if displays_swapped => DisplayMode::Dual {
            presenter_monitor: audience_monitor,
            audience_monitor: presenter_monitor,
        },
        _ => mode,
    }
}

/// Return the active dual-mode monitor assignment after applying a runtime swap.
pub fn effective_display_mode(mode: &DisplayMode, displays_swapped: bool) -> (r: DisplayMode)
    ensures
        r == effective_mode(*mode, displays_swapped),
{
    match mode {
        DisplayMode::Dual { presenter_monitor, audience_monitor } => {
            if displays_swapped {
                DisplayMode::Dual {
                    presenter_monitor: audience_monitor.copy(),
                    audience_monitor: presenter_monitor.copy(),
                }
            } else {
                DisplayMode::Dual {
                    presenter_monitor: presenter_monitor.copy(),
                    audience_monitor: audience_monitor.copy(),
                }
            }
        },
        DisplayMode::Single => DisplayMode::Single,
        DisplayMode::ScreenShare => DisplayMode::ScreenShare,
    }
}

/// The render size used when no audience monitor size is known.
pub open spec fn fallback_size() -> RenderSize {
    RenderSize { width: 1280, height: 720 }
}

/// The render size used when no audience monitor size is known: 1280 × 720.
pub fn fallback_render_size() -> (r: RenderSize)
    ensures
        r == fallback_size(),
{
    RenderSize { width: 1280, height: 720 }
}

/// The audience render size: the audience monitor's pixel size in dual mode
/// when both dimensions are known, the fallback size otherwise.
pub open spec fn audience_size(mode: DisplayMode) -> RenderSize {
    match mode {
        DisplayMode::Dual { audience_monitor, .. } if audience_monitor.size.0 > 0
            && audience_monitor.size.1 > 0 => RenderSize {
            width: audience_monitor.size.0,
            height: audience_monitor.size.1,
        },
        _ => fallback_size(),
    }
}

/// Determine the audience render size from the selected display mode.
pub fn audience_render_size(mode: &DisplayMode) -> (r: RenderSize)
    ensures
        r == audience_size(*mode),
{
    match mode {
        DisplayMode::Dual { audience_monitor, .. } => {
            if audience_monitor.size.0 > 0 && audience_monitor.size.1 > 0 {
                return RenderSize { width: audience_monitor.size.0, height: audience_monitor.size.1 };
            }
        },
        _ => {},
    }
    fallback_render_size()
}

/// Swapping the displays twice gives back the assignment it started from.
pub proof fn law_swap_twice_restores(mode: DisplayMode)
    ensures
        effective_mode(effective_mode(mode, true), true) == mode,
{
}

proof fn lemma_first_other(ms: Seq<MonitorInfo>, id: Seq<char>)
    ensures
        (exists|i: int| 0 <= i < ms.len() && (#[trigger] ms[i]).id@ != id) ==> first_other(ms, id)
            is Some,
        first_other(ms, id) matches Some(m) ==> m.id@ != id,
    decreases ms.len(),
{
    if ms.len() > 0 {
        lemma_first_other(ms.drop_first(), id);
        if ms[0].id@ == id {
            if exists|i: int| 0 <= i < ms.len() && (#[trigger] ms[i]).id@ != id {
                let i = choose|i: int| 0 <= i < ms.len() && (#[trigger] ms[i]).id@ != id;
                assert(ms.drop_first()[i - 1] == ms[i]);
            }
        }
    }
}

/// In dual mode the presenter console and the audience are on different
/// monitors whenever a monitor other than the audience one is detected.
pub proof fn law_presenter_apart_from_audience(hints: DisplayHints, config: DisplayConfig, ms: Seq<MonitorInfo>)
    ensures
        display_decision(hints, config, ms).0 matches DisplayMode::Dual {
            presenter_monitor,
            audience_monitor,
        } ==> ((exists|i: int| 0 <= i < ms.len() && (#[trigger] ms[i]).id@ != audience_monitor.id@)
            ==> presenter_monitor.id@ != audience_monitor.id@),
{
    match display_decision(hints, config, ms).0 {
        DisplayMode::Dual { presenter_monitor, audience_monitor } => {
            lemma_first_other(ms, audience_monitor.id@);
        },
        _ => {},
    }
}

// ---------------------------------------------------------------------------
// Reassigning the audience monitor
// ---------------------------------------------------------------------------

/// The id of the fallback the prompt offers, if any.
pub open spec fn fallback_id(p: AudienceReassignmentPrompt) -> Option<Seq<char>> {
    match p.attempted_fallback {
        Some(f) => Some(f.id@),
        None => None,
    }
}

/// The monitors other than the one with id `skip`, in order.
pub open spec fn monitors_except(ms: Seq<MonitorInfo>, skip: Option<Seq<char>>) -> Seq<MonitorInfo>
    decreases ms.len(),
{
    if ms.len() == 0 {
        seq![]
    } else {
        let rest = monitors_except(ms.drop_last(), skip);
        if Some(ms.last().id@) == skip {
            rest
        } else {
            rest.push(ms.last())
        }
    }
}

/// The monitors the prompt offers in place of the fallback: every available
/// monitor except the fallback itself.
pub fn alternative_monitors(p: &AudienceReassignmentPrompt) -> (r: Vec<MonitorInfo>)
    ensures
        r@ == monitors_except(p.available_monitors@, fallback_id(*p)),
{
    let ms = &p.available_monitors;
    let skip: Option<Vec<char>> = match &p.attempted_fallback {
        Some(f) => Some(chars_of(f.id.as_str())),
        None => None,
    };
    let mut out: Vec<MonitorInfo> = Vec::new();
    let mut i: usize = 0;
    while i < ms.len()
        invariant
            i <= ms@.len(),
            ms@ == p.available_monitors@,
            match skip {
                Some(v) => fallback_id(*p) == Some(v@),
                None => fallback_id(*p) is None,
            },
            out@ == monitors_except(ms@.take(i as int), fallback_id(*p)),
        decreases ms@.len() - i,
    {
        assert(ms@.take(i + 1).drop_last() =~= ms@.take(i as int));
        let id = chars_of(ms[i].id.as_str());
        let is_fallback = match &skip {
            Some(v) => same_chars(&id, v),
            None => false,
        };
        if !is_fallback {
            out.push(ms[i].copy());
        }
        i += 1;
    }
    assert(ms@.take(ms@.len() as int) =~= ms@);
    out
}

/// The presenter monitor for a new audience monitor: the current presenter
/// monitor unless it is the audience one, else the first other available
/// monitor, else the audience monitor itself.
pub open spec fn presenter_for_audience(current: DisplayMode, audience: MonitorInfo, ms: Seq<
    MonitorInfo,
>) -> MonitorInfo {
    match current {
        DisplayMode::Dual { presenter_monitor, .. } if presenter_monitor.id@ != audience.id@ =>
            presenter_monitor,
        _ => match first_other(ms, audience.id@) {
            Some(c) => c,
            None => audience,
        },
    }
}

/// The presenter monitor for a new audience monitor (see `presenter_for_audience`).
pub fn presenter_for_new_audience(current: &DisplayMode, audience: &MonitorInfo, ms: &Vec<MonitorInfo>) -> (r:
    MonitorInfo)
    ensures
        r == presenter_for_audience(*current, *audience, ms@),
{
    let aid = chars_of(audience.id.as_str());
    match current {
        DisplayMode::Dual { presenter_monitor, .. } => {
            if !same_chars(&chars_of(presenter_monitor.id.as_str()), &aid) {
                return presenter_monitor.copy();
            }
        },
        _ => {},
    }
    match first_other_in(ms, &aid) {
        Some(c) => c,
        None => audience.copy(),
    }
}

/// What the presenter chose in the reassignment prompt.
#[derive(Debug)]
pub enum ReassignmentChoice {
    /// Put the audience on this monitor.
    Use(MonitorInfo),
    /// Keep the fallback monitor (or, without one, stay in single-monitor mode).
    KeepFallback,
    /// Go to single-monitor mode.
    SingleMonitor,
}

/// The display mode a choice gives, and the toast that reports it.
pub open spec fn reassignment_result(
    p: AudienceReassignmentPrompt,
    current: DisplayMode,
    choice: ReassignmentChoice,
) -> (DisplayMode, Seq<char>) {
    let ms = p.available_monitors@;
    match choice {
        ReassignmentChoice::Use(m) => (
            DisplayMode::Dual { presenter_monitor: presenter_for_audience(current, m, ms), audience_monitor: m },
            "Audience moved to '"@ + m.name@ + "'"@,
        ),
        ReassignmentChoice::KeepFallback => match p.attempted_fallback {
            Some(f) => (
                DisplayMode::Dual {
                    presenter_monitor: presenter_for_audience(current, f, ms),
                    audience_monitor: f,
                },
                "Keeping fallback audience monitor '"@ + f.name@ + "'"@,
            ),
            None => (DisplayMode::Single, "Keeping single-monitor mode"@),
        },
        ReassignmentChoice::SingleMonitor => (
            DisplayMode::Single,
            if p.attempted_fallback is Some {
                "Audience reassigned to single-monitor mode"@
            } else {
                "Keeping single-monitor mode"@
            },
        ),
    }
}

/// `before + name + "'"` as a string.
fn quoted_message(before: &str, name: &str) -> (r: String)
    ensures
        r@ == before@ + name@ + "'"@,
{
    let mut out: Vec<char> = chars_of(before);
    let n = chars_of(name);
    let mut i: usize = 0;
    let ghost start = out@;
    while i < n.len()
        invariant
            i <= n@.len(),
            out@ == start + n@.take(i as int),
        decreases n@.len() - i,
    {
        out.push(n[i]);
        assert(n@.take(i + 1) =~= n@.take(i as int).push(n@[i as int]));
        i += 1;
    }
    assert(n@.take(n@.len() as int) =~= n@);
    out.push('\'');
    proof {
        reveal_strlit("'");
    }
    assert(out@ =~= before@ + name@ + "'"@);
    string_of(&out)
}

/// The display mode the presenter's choice gives, and the toast reporting it.
pub fn reassignment_outcome(
    p: &AudienceReassignmentPrompt,
    current: &DisplayMode,
    choice: ReassignmentChoice,
) -> (r: (DisplayMode, String))
    ensures
        (r.0, r.1@) == reassignment_result(*p, *current, choice),
{
    match choice {
        ReassignmentChoice::Use(m) => {
            let presenter = presenter_for_new_audience(current, &m, &p.available_monitors);
            let msg = quoted_message("Audience moved to '", m.name.as_str());
            (DisplayMode::Dual { presenter_monitor: presenter, audience_monitor: m }, msg)
        },
        ReassignmentChoice::KeepFallback => match &p.attempted_fallback {
            Some(f) => {
                let presenter = presenter_for_new_audience(current, f, &p.available_monitors);
                let msg = quoted_message("Keeping fallback audience monitor '", f.name.as_str());
                (DisplayMode::Dual { presenter_monitor: presenter, audience_monitor: f.copy() }, msg)
            },
            None => (DisplayMode::Single, "Keeping single-monitor mode".to_owned()),
        },
        ReassignmentChoice::SingleMonitor => {
            if p.attempted_fallback.is_some() {
                (DisplayMode::Single, "Audience reassigned to single-monitor mode".to_owned())
            } else {
                (DisplayMode::Single, "Keeping single-monitor mode".to_owned())
            }
        },
    }
}

/// The button label for a monitor in the prompt.
pub fn monitor_choice_label(m: &MonitorInfo) -> (r: String)
    ensures
        r@ == "Use "@ + m.name@ + " ("@ + m.id@ + (if m.is_primary {
            ", primary"@
        } else {
            seq![]
        }) + ")"@,
{
    let mut out: Vec<char> = chars_of("Use ");
    let name = chars_of(m.name.as_str());
    let id = chars_of(m.id.as_str());
    let open = chars_of(" (");
    let primary = chars_of(", primary");
    let close = chars_of(")");
    append_all(&mut out, &name);
    append_all(&mut out, &open);
    append_all(&mut out, &id);
    if m.is_primary {
        append_all(&mut out, &primary);
    }
    append_all(&mut out, &close);
    string_of(&out)
}

/// Appends `src` to `dst`.
fn append_all(dst: &mut Vec<char>, src: &Vec<char>)
    ensures
        final(dst)@ == old(dst)@ + src@,
{
    let mut i: usize = 0;
    while i < src.len()
        invariant
            i <= src@.len(),
            dst@ == old(dst)@ + src@.take(i as int),
        decreases src@.len() - i,
    {
        dst.push(src[i]);
        assert(src@.take(i + 1) =~= src@.take(i as int).push(src@[i as int]));
        i += 1;
    }
    assert(src@.take(src@.len() as int) =~= src@);
}

/// A reassignment never shows the audience and the presenter on the same
/// monitor when another monitor is available, and keeping the fallback keeps
/// the audience on it.
pub proof fn law_reassignment_separates_windows(
    p: AudienceReassignmentPrompt,
    current: DisplayMode,
    m: MonitorInfo,
)
    requires
        first_other(p.available_monitors@, m.id@) is Some,
    ensures
        reassignment_result(p, current, ReassignmentChoice::Use(m)).0 matches DisplayMode::Dual {
            presenter_monitor,
            audience_monitor,
        } && presenter_monitor.id@ != audience_monitor.id@ && audience_monitor == m,
        p.attempted_fallback matches Some(f) ==> reassignment_result(
            p,
            current,
            ReassignmentChoice::KeepFallback,
        ).0 matches DisplayMode::Dual { audience_monitor, .. } && audience_monitor == f,
{
    lemma_first_other_differs(p.available_monitors@, m.id@);
}

/// The first other monitor has another id.
proof fn lemma_first_other_differs(ms: Seq<MonitorInfo>, id: Seq<char>)
    ensures
        first_other(ms, id) matches Some(c) ==> c.id@ != id,
    decreases ms.len(),
{
    if ms.len() > 0 && ms[0].id@ == id {
        lemma_first_other_differs(ms.drop_first(), id);
    }
}


} // verus!
