//! The presenter's status bar as text: where the presenter is in the deck, the
//! timers, the active modes, and the slide number being typed.
use crate::modes::PresentationModes;
use crate::navigation::SlideNavigation;
use crate::text::{append_chars, append_str, decimal, decimal_chars, string_of};
use crate::timer::{clock_text, format_duration, timer_display, TimerState, MAX_DURATION_NANOS};
use vstd::prelude::*;

verus! {

/// `Slide n/total`, with ` (step k/steps)` on a slide of several steps.
pub open spec fn slide_position(nav: SlideNavigation) -> Seq<char> {
    let base = "Slide "@ + decimal((nav.current_logical_slide + 1) as nat) + "/"@ + decimal(
        nav.total_logical_slides as nat,
    );
    let cur = nav.current_logical_slide as int;
    if cur < nav.slide_groups@.len() && nav.slide_groups@[cur].pages@.len() > 1 {
        base + " (step "@ + decimal((nav.current_overlay_within_group + 1) as nat) + "/"@
            + decimal(nav.slide_groups@[cur].pages@.len()) + ")"@
    } else {
        base
    }
}

/// The slide position shown in the status bar.
pub fn slide_position_text(nav: &SlideNavigation) -> (r: String)
    requires
        nav.wf(),
    ensures
        r@ == slide_position(*nav),
{
    let mut out: Vec<char> = Vec::new();
    append_str(&mut out, "Slide ");
    let n = decimal_chars((nav.current_logical_slide + 1) as u64);
    append_chars(&mut out, &n);
    append_str(&mut out, "/");
    let t = decimal_chars(nav.total_logical_slides as u64);
    append_chars(&mut out, &t);
    let cur = nav.current_logical_slide;
    if cur < nav.slide_groups.len() && nav.slide_groups[cur].pages.len() > 1 {
        append_str(&mut out, " (step ");
        let k = decimal_chars((nav.current_overlay_within_group + 1) as u64);
        append_chars(&mut out, &k);
        append_str(&mut out, "/");
        let steps = decimal_chars(nav.slide_groups[cur].pages.len() as u64);
        append_chars(&mut out, &steps);
        append_str(&mut out, ")");
    }
    string_of(&out)
}

/// `[text]` when the flag is set, nothing otherwise.
pub open spec fn flag(on: bool, text: Seq<char>) -> Seq<Seq<char>> {
    if on {
        seq![text]
    } else {
        seq![]
    }
}

/// The indicators of the active modes, in the status bar's order.
pub open spec fn mode_indicators(frozen: bool, blacked_out: bool, m: PresentationModes) -> Seq<
    Seq<char>,
> {
    flag(frozen, "[F]rozen"@) + flag(blacked_out, "[B]lack"@) + flag(
        m.screen_share_mode,
        "[S]creen-share"@,
    ) + flag(m.laser_active, "[L]aser"@) + flag(m.ink_active, "[D]raw"@) + flag(
        m.spotlight_active,
        "Spotlight"@,
    ) + flag(m.zoom_active, "[Z]oom"@) + flag(m.text_box_mode, "[X]Text"@)
}

/// The texts of `v`.
pub open spec fn texts_of(v: Seq<&'static str>) -> Seq<Seq<char>> {
    v.map_values(|s: &'static str| s@)
}

/// Pushes `text` when `on`.
fn push_flag(out: &mut Vec<&'static str>, on: bool, text: &'static str)
    ensures
        texts_of(final(out)@) == texts_of(old(out)@) + flag(on, text@),
{
    if on {
        out.push(text);
        assert(texts_of(out@) =~= texts_of(old(out)@) + flag(on, text@));
    } else {
        assert(texts_of(out@) =~= texts_of(old(out)@) + flag(on, text@));
    }
}

/// The indicators of the active modes.
pub fn mode_indicator_texts(nav: &SlideNavigation, modes: &PresentationModes) -> (r: Vec<
    &'static str,
>)
    ensures
        texts_of(r@) == mode_indicators(nav.frozen, nav.blacked_out, *modes),
{
    let mut out: Vec<&'static str> = Vec::new();
    assert(texts_of(out@) =~= Seq::<Seq<char>>::empty());
    push_flag(&mut out, nav.frozen, "[F]rozen");
    push_flag(&mut out, nav.blacked_out, "[B]lack");
    push_flag(&mut out, modes.screen_share_mode, "[S]creen-share");
    push_flag(&mut out, modes.laser_active, "[L]aser");
    push_flag(&mut out, modes.ink_active, "[D]raw");
    push_flag(&mut out, modes.spotlight_active, "Spotlight");
    push_flag(&mut out, modes.zoom_active, "[Z]oom");
    push_flag(&mut out, modes.text_box_mode, "[X]Text");
    assert(texts_of(out@) =~= mode_indicators(nav.frozen, nav.blacked_out, *modes));
    out
}

/// The HUD's slide position, `n / total`.
pub open spec fn hud_position(nav: SlideNavigation) -> Seq<char> {
    decimal((nav.current_logical_slide + 1) as nat) + " / "@ + decimal(
        nav.total_logical_slides as nat,
    )
}

/// The HUD's step label, `step k/steps`, on a slide of several steps.
pub open spec fn hud_step(nav: SlideNavigation) -> Option<Seq<char>> {
    let cur = nav.current_logical_slide as int;
    if cur < nav.slide_groups@.len() && nav.slide_groups@[cur].pages@.len() > 1 {
        Some(
            "step "@ + decimal((nav.current_overlay_within_group + 1) as nat) + "/"@ + decimal(
                nav.slide_groups@[cur].pages@.len(),
            ),
        )
    } else {
        None
    }
}

/// The single-monitor HUD's slide position and step labels.
pub fn hud_position_texts(nav: &SlideNavigation) -> (r: (String, Option<String>))
    requires
        nav.wf(),
    ensures
        r.0@ == hud_position(*nav),
        match r.1 {
            Some(t) => hud_step(*nav) == Some(t@),
            None => hud_step(*nav) is None,
        },
{
    let mut out: Vec<char> = decimal_chars((nav.current_logical_slide + 1) as u64);
    append_str(&mut out, " / ");
    let t = decimal_chars(nav.total_logical_slides as u64);
    append_chars(&mut out, &t);
    let cur = nav.current_logical_slide;
    let step = if cur < nav.slide_groups.len() && nav.slide_groups[cur].pages.len() > 1 {
        let mut s: Vec<char> = Vec::new();
        append_str(&mut s, "step ");
        let k = decimal_chars((nav.current_overlay_within_group + 1) as u64);
        append_chars(&mut s, &k);
        append_str(&mut s, "/");
        let steps = decimal_chars(nav.slide_groups[cur].pages.len() as u64);
        append_chars(&mut s, &steps);
        Some(string_of(&s))
    } else {
        None
    };
    (string_of(&out), step)
}

/// The HUD's mode labels, in the order they are laid out from the right.
pub open spec fn hud_indicators(frozen: bool, m: PresentationModes) -> Seq<Seq<char>> {
    flag(frozen, "FROZEN"@) + flag(m.laser_active, "LASER"@) + flag(m.spotlight_active, "SPOT"@)
        + flag(m.zoom_active, "ZOOM"@)
}

/// The HUD's mode labels.
pub fn hud_indicator_texts(nav: &SlideNavigation, modes: &PresentationModes) -> (r: Vec<&'static str>)
    ensures
        texts_of(r@) == hud_indicators(nav.frozen, *modes),
{
    let mut out: Vec<&'static str> = Vec::new();
    assert(texts_of(out@) =~= Seq::<Seq<char>>::empty());
    push_flag(&mut out, nav.frozen, "FROZEN");
    push_flag(&mut out, modes.laser_active, "LASER");
    push_flag(&mut out, modes.spotlight_active, "SPOT");
    push_flag(&mut out, modes.zoom_active, "ZOOM");
    assert(texts_of(out@) =~= hud_indicators(nav.frozen, *modes));
    out
}

/// The timer label: a pause sign while running (a play sign otherwise), the time
/// shown, and the duration when there is one.
pub open spec fn timer_label_text(t: TimerState) -> Seq<char> {
    let icon = if t.running {
        "\u{23f8}"@
    } else {
        "\u{25b6}"@
    };
    let base = icon + " "@ + clock_text(timer_display(t));
    match t.duration {
        Some(d) => base + " / "@ + clock_text(d),
        None => base,
    }
}

/// The label of the presentation timer.
pub fn timer_label(timer: &TimerState) -> (r: String)
    requires
        timer.wf(),
    ensures
        r@ == timer_label_text(*timer),
{
    let mut out: Vec<char> = Vec::new();
    if timer.running {
        append_str(&mut out, "\u{23f8}");
    } else {
        append_str(&mut out, "\u{25b6}");
    }
    append_str(&mut out, " ");
    let shown = timer.display_time();
    let time = format_duration(shown);
    append_str(&mut out, time.as_str());
    match timer.duration {
        Some(d) => {
            append_str(&mut out, " / ");
            let total = format_duration(d);
            append_str(&mut out, total.as_str());
        },
        None => {},
    }
    string_of(&out)
}

/// The per-slide timer label, and whether the slide is over its target time.
pub open spec fn slide_timer_text(elapsed: u128, target: Option<u128>) -> (Seq<char>, bool) {
    match target {
        Some(t) => ("Slide "@ + clock_text(elapsed) + " / "@ + clock_text(t), elapsed > t),
        None => ("Slide "@ + clock_text(elapsed), false),
    }
}

/// The label of the per-slide timer, and whether it is over the target.
pub fn slide_timer_label(elapsed: u128, target: Option<u128>) -> (r: (String, bool))
    requires
        elapsed <= MAX_DURATION_NANOS,
        target matches Some(t) ==> t <= MAX_DURATION_NANOS,
    ensures
        (r.0@, r.1) == slide_timer_text(elapsed, target),
{
    let mut out: Vec<char> = Vec::new();
    append_str(&mut out, "Slide ");
    let time = format_duration(elapsed);
    append_str(&mut out, time.as_str());
    let over = match target {
        Some(t) => {
            append_str(&mut out, " / ");
            let total = format_duration(t);
            append_str(&mut out, total.as_str());
            elapsed > t
        },
        None => false,
    };
    (string_of(&out), over)
}

/// The jump prompt while a slide number is typed.
pub fn jump_prompt(buffer: &str) -> (r: String)
    ensures
        r@ == "Go to: "@ + buffer@ + "_"@,
{
    let mut out: Vec<char> = Vec::new();
    append_str(&mut out, "Go to: ");
    append_str(&mut out, buffer);
    append_str(&mut out, "_");
    string_of(&out)
}

} // verus!
