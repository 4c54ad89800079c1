//! Configuration records: display, timer and clicker settings, and where the
//! configuration of a document lives.
use std::path::{Path, PathBuf};

use crate::text::{chars_of, eq_ignore_ascii_case, is_word, is_word_ignoring_ascii_case, same_chars};
use crate::timer::TimerMode;
use vstd::prelude::*;

verus! {

#[verifier::external_type_specification]
#[verifier::external_body]
pub struct ExPath(std::path::Path);

/// Display mode and monitor assignment.
#[derive(Debug, Clone)]
pub struct DisplayConfig {
    /// Display mode: "dual", "single", or "screen-share".
    pub mode: String,
    /// Audience monitor identifier or "auto".
    pub audience_monitor: String,
    /// Presenter monitor identifier or "auto".
    pub presenter_monitor: String,
}

impl Default for DisplayConfig {
    fn default() -> (r: Self)
        ensures
            r.mode@ == "dual"@,
            r.audience_monitor@ == "auto"@,
            r.presenter_monitor@ == "auto"@,
    {
        DisplayConfig {
            mode: "dual".to_owned(),
            audience_monitor: "auto".to_owned(),
            presenter_monitor: "auto".to_owned(),
        }
    }
}

/// Timer configuration.
#[derive(Debug, Clone)]
pub struct TimerConfig {
    /// "countdown" or "elapsed".
    pub mode: TimerMode,
    /// Timer duration in minutes. If omitted in elapsed mode, no limit is shown.
    pub duration_minutes: Option<u32>,
    /// Minutes remaining when warning color activates.
    pub warning_minutes: Option<u32>,
    /// Whether to show red when past duration.
    pub overrun_color: bool,
}

impl Default for TimerConfig {
    fn default() -> (r: Self)
        ensures
            r.mode == TimerMode::Elapsed,
            r.duration_minutes is None,
            r.warning_minutes is None,
            r.overrun_color,
    {
        TimerConfig {
            mode: TimerMode::Elapsed,
            duration_minutes: None,
            warning_minutes: None,
            overrun_color: true,
        }
    }
}

/// A number of minutes in a config layer: a value, or an explicit null that
/// clears the setting.
#[derive(Debug, Clone, Copy)]
pub enum OptionalU32Value {
    Value(u32),
    Null,
}

impl OptionalU32Value {
    /// The setting this value gives: `Some` for a number, `None` for null.
    pub fn into_option(self) -> (r: Option<u32>)
        ensures
            r == match self {
                OptionalU32Value::Value(v) => Some(v),
                OptionalU32Value::Null => None::<u32>,
            },
    {
        match self {
            OptionalU32Value::Value(value) => Some(value),
            OptionalU32Value::Null => None,
        }
    }
}

/// Clicker/remote hardware configuration.
#[derive(Debug, Clone)]
pub struct ClickerConfig {
    /// Name of the active clicker profile (e.g., "default", "logitech-spotlight").
    pub profile: String,
    /// Custom profile definitions: a name, and key names mapped to action names.
    pub profiles: Vec<(String, Vec<(String, String)>)>,
}

impl Default for ClickerConfig {
    fn default() -> (r: Self)
        ensures
            r.profile@ == "default"@,
            r.profiles@.len() == 0,
    {
        ClickerConfig { profile: "default".to_owned(), profiles: Vec::new() }
    }
}

/// The model of a clicker profile: key names and action names.
pub open spec fn profile_view(p: Seq<(String, String)>) -> Seq<(Seq<char>, Seq<char>)> {
    p.map_values(|e: (String, String)| (e.0@, e.1@))
}

/// The built-in clicker profile: common USB presenter keys.
pub open spec fn default_profile() -> Seq<(Seq<char>, Seq<char>)> {
    seq![
        ("PageDown"@, "next_slide"@),
        ("PageUp"@, "previous_slide"@),
        ("F5"@, "toggle_presentation_mode"@),
        ("b"@, "toggle_blackout"@),
        ("."@, "toggle_blackout"@),
    ]
}

/// Return the built-in default clicker profile mapping common USB presenter keys to actions.
pub fn default_clicker_profile() -> (r: Vec<(String, String)>)
    ensures
        profile_view(r@) == default_profile(),
{
    let r = vec![
        ("PageDown".to_owned(), "next_slide".to_owned()),
        ("PageUp".to_owned(), "previous_slide".to_owned()),
        ("F5".to_owned(), "toggle_presentation_mode".to_owned()),
        ("b".to_owned(), "toggle_blackout".to_owned()),
        (".".to_owned(), "toggle_blackout".to_owned()),
    ];
    assert(profile_view(r@) =~= default_profile());
    r
}

/// The last profile named `name`, if any.
pub open spec fn profile_named(profiles: Seq<(String, Vec<(String, String)>)>, name: Seq<char>) -> Option<
    Seq<(Seq<char>, Seq<char>)>,
>
    decreases profiles.len(),
{
    if profiles.len() == 0 {
        None
    } else if profiles.last().0@ == name {
        Some(profile_view(profiles.last().1@))
    } else {
        profile_named(profiles.drop_last(), name)
    }
}

/// The active profile: the built-in one for `default` or for an unknown name,
/// else the configured one of that name.
pub open spec fn active_profile(c: ClickerConfig) -> Seq<(Seq<char>, Seq<char>)> {
    if c.profile@ == "default"@ {
        default_profile()
    } else {
        match profile_named(c.profiles@, c.profile@) {
            Some(p) => p,
            None => default_profile(),
        }
    }
}

/// A copy of a list of string pairs.
fn copy_pairs(v: &Vec<(String, String)>) -> (r: Vec<(String, String)>)
    ensures
        profile_view(r@) == profile_view(v@),
{
    let mut r: Vec<(String, String)> = Vec::new();
    let mut i: usize = 0;
    while i < v.len()
        invariant
            i <= v@.len(),
            profile_view(r@) == profile_view(v@.take(i as int)),
        decreases v@.len() - i,
    {
        let e = &v[i];
        let ghost before = r@;
        let pair = (e.0.clone(), e.1.clone());
        r.push(pair);
        assert(v@.take(i + 1) =~= v@.take(i as int).push(v@[i as int]));
        assert(r@ == before.push(pair));
        assert(profile_view(r@) =~= profile_view(v@.take(i + 1))) by {
            broadcast use Seq::lemma_push_map_commute;

        }
        i += 1;
    }
    assert(v@.take(v@.len() as int) =~= v@);
    r
}

impl ClickerConfig {
    /// Resolve the active clicker profile into (key, action) pairs.
    pub fn active_clicker_profile(&self) -> (r: Vec<(String, String)>)
        ensures
            profile_view(r@) == active_profile(*self),
    {
        let name = chars_of(self.profile.as_str());
        if is_word(&name, "default") {
            return default_clicker_profile();
        }
        let mut i = self.profiles.len();
        assert(self.profiles@.take(i as int) =~= self.profiles@);
        while i > 0
            invariant
                i <= self.profiles@.len(),
                name@ == self.profile@,
                self.profile@ != "default"@,
                profile_named(self.profiles@, self.profile@) == profile_named(
                    self.profiles@.take(i as int),
                    self.profile@,
                ),
            decreases i,
        {
            assert(self.profiles@.take(i as int).drop_last() =~= self.profiles@.take(i - 1));
            let entry = &self.profiles[i - 1];
            let entry_name = chars_of(entry.0.as_str());
            assert(self.profiles@.take(i as int).last() == *entry);
            if same_chars(&entry_name, &name) {
                return copy_pairs(&entry.1);
            }
            i -= 1;
        }
        assert(self.profiles@.take(0) =~= Seq::<(String, Vec<(String, String)>)>::empty());
        default_clicker_profile()
    }
}

/// The sidecar format to save in: `dais` (any ASCII case) is the Dais format,
/// anything else means pdfpc.
pub fn normalized_sidecar_format(format: &str) -> (r: &'static str)
    ensures
        r@ == if eq_ignore_ascii_case(format@, "dais"@) {
            "dais"@
        } else {
            "pdfpc"@
        },
{
    let chars = chars_of(format);
    if is_word_ignoring_ascii_case(&chars, "dais") {
        "dais"
    } else {
        "pdfpc"
    }
}

/// The parent directory of a path, as `Path::parent` gives it (none for a root
/// or an empty path).
pub uninterp spec fn parent_of(path: &Path) -> Option<&Path>;

/// A path with a name appended, as `Path::join` gives it.
pub uninterp spec fn joined(dir: &Path, name: Seq<char>) -> PathBuf;

/// `Path::parent`: its result is the named parent of the argument.
#[verifier::external_body]
fn path_parent(path: &Path) -> (r: Option<&Path>)
    ensures
        r == parent_of(path),
{
    path.parent()
}

/// `Path::join`: its result is the named join of the arguments.
#[verifier::external_body]
fn path_join(dir: &Path, name: &str) -> (r: PathBuf)
    ensures
        r == joined(dir, name@),
{
    dir.join(name)
}

/// Resolve a project-local config path for a PDF: `dais.toml` in the PDF's
/// directory, if the path has one.
pub fn project_config_path(pdf_path: &Path) -> (r: Option<PathBuf>)
    ensures
        r == match parent_of(pdf_path) {
            Some(d) => Some(joined(d, "dais.toml"@)),
            None => None,
        },
{
    match path_parent(pdf_path) {
        Some(dir) => Some(path_join(dir, "dais.toml")),
        None => None,
    }
}

/// A display section of a config layer: the settings it gives.
#[derive(Debug, Clone)]
pub struct PartialDisplayConfig {
    pub mode: Option<String>,
    pub audience_monitor: Option<String>,
    pub presenter_monitor: Option<String>,
}

/// A timer section of a config layer: the settings it gives (a minutes value
/// may be an explicit null).
#[derive(Debug, Clone, Copy)]
pub struct PartialTimerConfig {
    pub mode: Option<TimerMode>,
    pub duration_minutes: Option<OptionalU32Value>,
    pub warning_minutes: Option<OptionalU32Value>,
    pub overrun_color: Option<bool>,
}

/// `Some(v)` gives `v`; `None` keeps `old`.
pub open spec fn given<A>(layer: Option<A>, old: A) -> A {
    match layer {
        Some(v) => v,
        None => old,
    }
}

/// The setting a minutes value gives.
pub open spec fn minutes_setting(v: OptionalU32Value) -> Option<u32> {
    match v {
        OptionalU32Value::Value(m) => Some(m),
        OptionalU32Value::Null => None,
    }
}

/// Lays a display section over the display settings: each setting the layer
/// gives replaces the current one.
pub fn apply_partial_display(config: &mut DisplayConfig, layer: PartialDisplayConfig)
    ensures
        final(config).mode@ == match layer.mode {
            Some(v) => v@,
            None => old(config).mode@,
        },
        final(config).audience_monitor@ == match layer.audience_monitor {
            Some(v) => v@,
            None => old(config).audience_monitor@,
        },
        final(config).presenter_monitor@ == match layer.presenter_monitor {
            Some(v) => v@,
            None => old(config).presenter_monitor@,
        },
{
    if let Some(mode) = layer.mode {
        config.mode = mode;
    }
    if let Some(audience_monitor) = layer.audience_monitor {
        config.audience_monitor = audience_monitor;
    }
    if let Some(presenter_monitor) = layer.presenter_monitor {
        config.presenter_monitor = presenter_monitor;
    }
}

/// Lays a timer section over the timer settings: each setting the layer gives
/// replaces the current one, and a null minutes value clears it.
pub fn apply_partial_timer(config: &mut TimerConfig, layer: PartialTimerConfig)
    ensures
        final(config).mode == given(layer.mode, old(config).mode),
        final(config).duration_minutes == match layer.duration_minutes {
            Some(v) => minutes_setting(v),
            None => old(config).duration_minutes,
        },
        final(config).warning_minutes == match layer.warning_minutes {
            Some(v) => minutes_setting(v),
            None => old(config).warning_minutes,
        },
        final(config).overrun_color == given(layer.overrun_color, old(config).overrun_color),
{
    if let Some(mode) = layer.mode {
        config.mode = mode;
    }
    if let Some(duration_minutes) = layer.duration_minutes {
        config.duration_minutes = duration_minutes.into_option();
    }
    if let Some(warning_minutes) = layer.warning_minutes {
        config.warning_minutes = warning_minutes.into_option();
    }
    if let Some(overrun_color) = layer.overrun_color {
        config.overrun_color = overrun_color;
    }
}

/// Lays the sidecar format of a config layer over the current one.
pub fn apply_partial_sidecar_format(current: &mut String, layer: Option<String>)
    ensures
        final(current)@ == match layer {
            Some(v) => v@,
            None => old(current)@,
        },
{
    if let Some(format) = layer {
        *current = format;
    }
}

} // verus!
