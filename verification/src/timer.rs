//! The presentation timer. Durations are counted in nanoseconds, as
//! `std::time::Duration::as_nanos` gives them.
use crate::text::{append_chars, string_of, zero_padded, zero_padded_chars};
use crate::config::TimerConfig;
use vstd::prelude::*;

verus! {

/// The largest number of nanoseconds a `std::time::Duration` holds.
pub const MAX_DURATION_NANOS: u128 = 18446744073709551615999999999u128;

/// Timer counting mode.
#[derive(Debug, Clone, Copy, PartialEq, Eq, Structural)]
pub enum TimerMode {
    /// Count up from zero.
    Elapsed,
    /// Count down from the configured duration.
    Countdown,
}

/// Visual phase of the timer, derived from state each frame.
#[derive(Debug, Clone, Copy, PartialEq, Eq, Structural)]
pub enum TimerPhase {
    /// Normal — plenty of time remaining.
    Normal,
    /// Warning — less than the warning threshold remaining.
    Warning,
    /// Overrun — past the configured duration.
    Overrun,
}

/// Timer state for the presentation (durations in nanoseconds).
#[derive(Debug, Clone, Copy)]
pub struct TimerState {
    /// Timer mode.
    pub mode: TimerMode,
    /// Configured total duration, if any.
    pub duration: Option<u128>,
    /// Time elapsed since the timer started.
    pub elapsed: u128,
    /// Whether the timer is currently running.
    pub running: bool,
    /// Threshold for the warning phase.
    pub warning_threshold: Option<u128>,
}

/// The phase of a timer: overrun once the elapsed time reaches the duration,
/// warning once the time left is within the threshold, normal otherwise (and
/// always when no duration is set).
pub open spec fn timer_phase(t: TimerState) -> TimerPhase {
    match t.duration {
        None => TimerPhase::Normal,
        Some(d) => if t.elapsed >= d {
            TimerPhase::Overrun
        } else if t.warning_threshold matches Some(w) && t.elapsed + w >= d {
            TimerPhase::Warning
        } else {
            TimerPhase::Normal
        },
    }
}

/// The time a timer shows: the time left (not below zero) when counting down
/// with a duration, the elapsed time otherwise.
pub open spec fn timer_display(t: TimerState) -> u128 {
    match t.mode {
        TimerMode::Countdown => match t.duration {
            Some(d) => if d >= t.elapsed {
                (d - t.elapsed) as u128
            } else {
                0
            },
            None => t.elapsed,
        },
        TimerMode::Elapsed => t.elapsed,
    }
}

/// The sum the phase computes (elapsed plus warning threshold, when the duration
/// is not yet reached) fits a `std::time::Duration`.
pub open spec fn warning_sum_fits(t: TimerState) -> bool {
    match (t.duration, t.warning_threshold) {
        (Some(d), Some(w)) => t.elapsed < d ==> t.elapsed + w <= MAX_DURATION_NANOS,
        _ => true,
    }
}

impl TimerState {
    /// Every duration fits a `std::time::Duration`.
    pub open spec fn wf(&self) -> bool {
        &&& self.elapsed <= MAX_DURATION_NANOS
        &&& self.duration matches Some(d) ==> d <= MAX_DURATION_NANOS
        &&& self.warning_threshold matches Some(w) ==> w <= MAX_DURATION_NANOS
    }

    /// A stopped, zeroed timer counting up.
    pub fn new() -> (r: Self)
        ensures
            r.wf(),
            r.mode == TimerMode::Elapsed,
            r.duration is None,
            r.elapsed == 0,
            !r.running,
            r.warning_threshold is None,
    {
        TimerState {
            mode: TimerMode::Elapsed,
            duration: None,
            elapsed: 0,
            running: false,
            warning_threshold: None,
        }
    }

    /// Compute the current timer phase.
    pub fn phase(&self) -> (r: TimerPhase)
        requires
            warning_sum_fits(*self),
        ensures
            r == timer_phase(*self),
    {
        let duration = match self.duration {
            None => {
                return TimerPhase::Normal;
            },
            Some(d) => d,
        };
        if self.elapsed >= duration {
            TimerPhase::Overrun
        } else {
            match self.warning_threshold {
                Some(warning) => {
                    if self.elapsed + warning >= duration {
                        TimerPhase::Warning
                    } else {
                        TimerPhase::Normal
                    }
                },
                None => TimerPhase::Normal,
            }
        }
    }

    /// The display time for the timer.
    /// For countdown mode, returns time remaining (clamped to 0).
    /// For elapsed mode, returns time elapsed.
    pub fn display_time(&self) -> (r: u128)
        ensures
            r == timer_display(*self),
    {
        match self.mode {
            TimerMode::Countdown => match self.duration {
                Some(duration) => duration.saturating_sub(self.elapsed),
                None => self.elapsed,
            },
            TimerMode::Elapsed => self.elapsed,
        }
    }
}

impl TimerState {
    /// `ToggleTimer`: pause a running timer, or start a stopped one; returns
    /// whether it started (the caller then starts measuring from `elapsed`).
    pub fn toggle(&mut self) -> (started: bool)
        ensures
            final(self).running == !old(self).running,
            started == !old(self).running,
            *final(self) == (TimerState { running: final(self).running, ..*old(self) }),
    {
        self.running = !self.running;
        self.running
    }

    /// `StartTimer`: start a stopped timer; returns whether it started.
    pub fn start(&mut self) -> (started: bool)
        ensures
            final(self).running,
            started == !old(self).running,
            *final(self) == (TimerState { running: true, ..*old(self) }),
    {
        let started = !self.running;
        self.running = true;
        started
    }

    /// `PauseTimer`: stop the timer, keeping the elapsed time.
    pub fn pause(&mut self)
        ensures
            *final(self) == (TimerState { running: false, ..*old(self) }),
    {
        self.running = false;
    }

    /// `ResetTimer`: stop the timer and clear the elapsed time.
    pub fn reset(&mut self)
        ensures
            *final(self) == (TimerState { running: false, elapsed: 0, ..*old(self) }),
    {
        self.running = false;
        self.elapsed = 0;
    }
}

impl Default for TimerState {
    fn default() -> (r: Self)
        ensures
            r.wf(),
            r.mode == TimerMode::Elapsed,
            r.duration is None,
            r.elapsed == 0,
            !r.running,
            r.warning_threshold is None,
    {
        TimerState::new()
    }
}

/// Nanoseconds in a minute.
pub const NANOS_PER_MINUTE: u128 = 60_000_000_000u128;

/// The configured duration: none when counting up without a limit, the
/// configured minutes when set, and twenty minutes for a countdown without one.
pub open spec fn configured_duration(mode: TimerMode, minutes: Option<u32>) -> Option<u128> {
    match minutes {
        Some(m) => Some((m * NANOS_PER_MINUTE) as u128),
        None => match mode {
            TimerMode::Elapsed => None,
            TimerMode::Countdown => Some((20 * NANOS_PER_MINUTE) as u128),
        },
    }
}

/// The stopped timer a configuration starts with; the warning threshold is kept
/// only when there is a duration.
pub open spec fn configured_timer(c: TimerConfig) -> TimerState {
    let d = configured_duration(c.mode, c.duration_minutes);
    TimerState {
        mode: c.mode,
        duration: d,
        elapsed: 0,
        running: false,
        warning_threshold: match (d, c.warning_minutes) {
            (Some(_), Some(w)) => Some((w * NANOS_PER_MINUTE) as u128),
            _ => None,
        },
    }
}

/// The timer for a timer configuration.
pub fn timer_from_config(config: &TimerConfig) -> (r: TimerState)
    ensures
        r == configured_timer(*config),
        r.wf(),
{
    let duration: Option<u128> = match config.duration_minutes {
        Some(minutes) => Some(minutes as u128 * NANOS_PER_MINUTE),
        None => match config.mode {
            TimerMode::Elapsed => None,
            TimerMode::Countdown => Some(20 * NANOS_PER_MINUTE),
        },
    };
    let warning_threshold: Option<u128> = match (duration, config.warning_minutes) {
        (Some(_), Some(minutes)) => Some(minutes as u128 * NANOS_PER_MINUTE),
        _ => None,
    };
    TimerState { mode: config.mode, duration, elapsed: 0, running: false, warning_threshold }
}


/// The phase follows the time left: with a duration `d` and `e` elapsed, the
/// timer is overrun exactly once `e` reaches `d`; before that it warns exactly
/// when the time left, `d - e`, is within the warning threshold, and is normal
/// otherwise (always normal without a threshold or without a duration).
pub proof fn law_phase_follows_time_left(t: TimerState)
    ensures
        t.duration is None ==> timer_phase(t) == TimerPhase::Normal,
        t.duration matches Some(d) ==> (timer_phase(t) == TimerPhase::Overrun <==> t.elapsed >= d),
        forall|d: u128, w: u128|
            t.duration == Some(d) && t.warning_threshold == Some(w) && t.elapsed < d ==> (
            timer_phase(t) == TimerPhase::Warning <==> d - t.elapsed <= w) && (timer_phase(t)
                == TimerPhase::Normal <==> d - t.elapsed > w),
        forall|d: u128|
            t.duration == Some(d) && t.warning_threshold is None && t.elapsed < d ==> timer_phase(t)
                == TimerPhase::Normal,
{
}

/// Counting down shows exactly the time the duration has left over what has
/// elapsed: shown time plus elapsed time is the duration, until it runs out.
pub proof fn law_countdown_adds_up(t: TimerState)
    requires
        t.mode == TimerMode::Countdown,
        t.duration matches Some(d) && t.elapsed <= d,
    ensures
        timer_display(t) + t.elapsed == t.duration->0,
        timer_phase(t) == TimerPhase::Overrun <==> timer_display(t) == 0,
{
}

/// `mm:ss` of a number of nanoseconds (whole seconds; minutes may exceed 59).
pub open spec fn clock_text(nanos: u128) -> Seq<char> {
    let secs = nanos / 1_000_000_000;
    zero_padded((secs / 60) as nat, 2) + seq![':'] + zero_padded((secs % 60) as nat, 2)
}

/// Formats a duration as `mm:ss`.
pub fn format_duration(duration: u128) -> (r: String)
    requires
        duration <= MAX_DURATION_NANOS,
    ensures
        r@ == clock_text(duration),
{
    let secs = (duration / 1_000_000_000) as u64;
    let mins = secs / 60;
    let remaining_secs = secs % 60;
    let mut out = zero_padded_chars(mins, 2);
    out.push(':');
    let tail = zero_padded_chars(remaining_secs, 2);
    append_chars(&mut out, &tail);
    string_of(&out)
}

/// The wire name of a timer phase.
pub fn timer_phase_name(phase: TimerPhase) -> (r: &'static str)
    ensures
        r@ == match phase {
            TimerPhase::Normal => "normal"@,
            TimerPhase::Warning => "warning"@,
            TimerPhase::Overrun => "overrun"@,
        },
{
    match phase {
        TimerPhase::Normal => "normal",
        TimerPhase::Warning => "warning",
        TimerPhase::Overrun => "overrun",
    }
}

/// Time spent on each logical slide during a session (nanoseconds), and on the
/// current one.
#[derive(Debug)]
pub struct SlideTimes {
    /// Accumulated time per logical slide.
    pub by_slide: Vec<u128>,
    /// Time on the current logical slide.
    pub current: u128,
}

/// The time recorded for `slide`, zero for a slide out of range.
pub open spec fn recorded_time(times: Seq<u128>, slide: int) -> u128 {
    if 0 <= slide < times.len() {
        times[slide]
    } else {
        0
    }
}

impl SlideTimes {
    /// No time on any of `slides` logical slides yet.
    pub fn new(slides: usize) -> (r: Self)
        ensures
            r.by_slide@ == Seq::new(slides as nat, |i: int| 0u128),
            r.current == 0,
    {
        let mut by_slide: Vec<u128> = Vec::new();
        let mut i: usize = 0;
        while i < slides
            invariant
                i <= slides,
                by_slide@ == Seq::new(i as nat, |k: int| 0u128),
            decreases slides - i,
        {
            by_slide.push(0);
            i += 1;
            assert(by_slide@ =~= Seq::new(i as nat, |k: int| 0u128));
        }
        SlideTimes { by_slide, current: 0 }
    }

    /// The clock of the current slide reads `elapsed`: it becomes that slide's
    /// accumulated time.
    pub fn record(&mut self, slide: usize, elapsed: u128)
        ensures
            final(self).current == elapsed,
            final(self).by_slide@ == if slide < old(self).by_slide@.len() {
                old(self).by_slide@.update(slide as int, elapsed)
            } else {
                old(self).by_slide@
            },
    {
        if slide < self.by_slide.len() {
            self.by_slide.set(slide, elapsed);
        }
        self.current = elapsed;
    }

    /// Arriving on `slide`: its clock resumes from the time already spent there,
    /// which this returns.
    pub fn resume(&mut self, slide: usize) -> (r: u128)
        ensures
            r == recorded_time(old(self).by_slide@, slide as int),
            final(self).current == r,
            final(self).by_slide@ == old(self).by_slide@,
    {
        let accumulated: u128 = if slide < self.by_slide.len() {
            self.by_slide[slide]
        } else {
            0
        };
        self.current = accumulated;
        accumulated
    }
}

/// Time on a slide accumulates across visits: after the clock of a slide read
/// `t`, coming back to it resumes from `t`, and other slides keep their times.
pub proof fn law_slide_time_resumes(times: Seq<u128>, slide: int, t: u128, other: int)
    requires
        0 <= slide < times.len(),
        other != slide,
    ensures
        recorded_time(times.update(slide, t), slide) == t,
        recorded_time(times.update(slide, t), other) == recorded_time(times, other),
{
}


} // verus!
