//! Presentation-aid styles from configuration text: laser pointer styles and
//! `#RRGGBB` / `#RRGGBBAA` colors.
use crate::text::{
    ascii_lower_seq, byte_boundary, chars_of, eq_ignore_ascii_case, is_ascii_char,
    is_word_ignoring_ascii_case, lower_ascii_chars, slice_of, trim, trim_chars, utf8_len,
    utf8_length, is_word,
};
use vstd::prelude::*;

verus! {

/// Visual style for the audience laser pointer.
#[derive(Debug, Clone, Copy, PartialEq, Eq, Structural)]
pub enum PointerStyle {
    /// Circular laser dot with glow.
    Dot,
    /// Minimal dot without glow.
    Minimal,
    /// Crosshair with a small center dot.
    Crosshair,
    /// Arrow-style marker.
    Arrow,
    /// Hollow circle pointer.
    Ring,
    /// Ring with a center dot.
    Bullseye,
    /// Translucent filled highlight circle.
    Highlight,
}

impl Default for PointerStyle {
    fn default() -> (r: Self)
        ensures
            r == PointerStyle::Dot,
    {
        PointerStyle::Dot
    }
}

/// The style after `s` in the laser-style cycle (Highlight wraps to Dot).
pub open spec fn style_after(s: PointerStyle) -> PointerStyle {
    match s {
        PointerStyle::Dot => PointerStyle::Minimal,
        PointerStyle::Minimal => PointerStyle::Crosshair,
        PointerStyle::Crosshair => PointerStyle::Arrow,
        PointerStyle::Arrow => PointerStyle::Ring,
        PointerStyle::Ring => PointerStyle::Bullseye,
        PointerStyle::Bullseye => PointerStyle::Highlight,
        PointerStyle::Highlight => PointerStyle::Dot,
    }
}

/// The position of a style in the cycle.
pub open spec fn style_rank(s: PointerStyle) -> nat {
    match s {
        PointerStyle::Dot => 0,
        PointerStyle::Minimal => 1,
        PointerStyle::Crosshair => 2,
        PointerStyle::Arrow => 3,
        PointerStyle::Ring => 4,
        PointerStyle::Bullseye => 5,
        PointerStyle::Highlight => 6,
    }
}

/// `n` steps of the cycle from `s`.
pub open spec fn style_steps(s: PointerStyle, n: nat) -> PointerStyle
    decreases n,
{
    if n == 0 {
        s
    } else {
        style_after(style_steps(s, (n - 1) as nat))
    }
}

impl PointerStyle {
    /// The next style in the laser-style cycle.
    pub fn next(self) -> (r: Self)
        ensures
            r == style_after(self),
    {
        match self {
            PointerStyle::Dot => PointerStyle::Minimal,
            PointerStyle::Minimal => PointerStyle::Crosshair,
            PointerStyle::Crosshair => PointerStyle::Arrow,
            PointerStyle::Arrow => PointerStyle::Ring,
            PointerStyle::Ring => PointerStyle::Bullseye,
            PointerStyle::Bullseye => PointerStyle::Highlight,
            PointerStyle::Highlight => PointerStyle::Dot,
        }
    }
}

/// Cycling the laser style seven times returns to the starting style, and each
/// step moves one place along the cycle.
pub proof fn law_style_cycle_returns(s: PointerStyle)
    ensures
        style_steps(s, 7) == s,
        style_rank(style_after(s)) == (style_rank(s) + 1) % 7,
{
    reveal_with_fuel(style_steps, 8);
}

/// The style a configuration word names (trimmed, ASCII case ignored); unknown
/// words give `Dot`.
pub open spec fn pointer_style_named(s: Seq<char>) -> PointerStyle {
    let w = ascii_lower_seq(trim(s));
    if w == "minimal"@ {
        PointerStyle::Minimal
    } else if w == "crosshair"@ {
        PointerStyle::Crosshair
    } else if w == "arrow"@ {
        PointerStyle::Arrow
    } else if w == "ring"@ {
        PointerStyle::Ring
    } else if w == "bullseye"@ {
        PointerStyle::Bullseye
    } else if w == "highlight"@ {
        PointerStyle::Highlight
    } else {
        PointerStyle::Dot
    }
}

/// Parses a laser pointer style name.
pub fn parse_pointer_style(style: &str) -> (r: PointerStyle)
    ensures
        r == pointer_style_named(style@),
{
    let chars = chars_of(style);
    let trimmed = trim_chars(&chars);
    let w = lower_ascii_chars(&trimmed);
    if is_word(&w, "minimal") {
        PointerStyle::Minimal
    } else if is_word(&w, "crosshair") {
        PointerStyle::Crosshair
    } else if is_word(&w, "arrow") {
        PointerStyle::Arrow
    } else if is_word(&w, "ring") {
        PointerStyle::Ring
    } else if is_word(&w, "bullseye") {
        PointerStyle::Bullseye
    } else if is_word(&w, "highlight") {
        PointerStyle::Highlight
    } else {
        PointerStyle::Dot
    }
}

// ---------------------------------------------------------------------------
// Hex colors
// ---------------------------------------------------------------------------

/// The value of a hexadecimal digit.
pub open spec fn hex_digit(c: char) -> Option<int> {
    if '0' <= c <= '9' {
        Some(c as int - '0' as int)
    } else if 'a' <= c <= 'f' {
        Some(c as int - 'a' as int + 10)
    } else if 'A' <= c <= 'F' {
        Some(c as int - 'A' as int + 10)
    } else {
        None
    }
}

/// `u8::from_str_radix(p, 16)` on two characters: two hex digits, or `+` and one.
pub open spec fn hex_pair_value(a: char, b: char) -> Option<u8> {
    if a == '+' {
        match hex_digit(b) {
            Some(v) => Some(v as u8),
            None => None,
        }
    } else {
        match (hex_digit(a), hex_digit(b)) {
            (Some(x), Some(y)) => Some((16 * x + y) as u8),
            _ => None,
        }
    }
}

/// The byte that characters `i` and `i + 1` of `hex` spell, when both are ASCII.
pub open spec fn hex_pair_at(hex: Seq<char>, i: int) -> Option<u8> {
    if 0 <= i && i + 2 <= hex.len() && is_ascii_char(hex[i]) && is_ascii_char(hex[i + 1]) {
        hex_pair_value(hex[i], hex[i + 1])
    } else {
        None
    }
}

/// `s` without one leading `#`.
pub open spec fn strip_hash(s: Seq<char>) -> Seq<char> {
    if s.len() > 0 && s[0] == '#' {
        s.drop_first()
    } else {
        s
    }
}

/// The RGBA color of `#RRGGBB` (opaque) or `#RRGGBBAA` text; the `#` is optional.
pub open spec fn hex_color(s: Seq<char>) -> Option<Seq<u8>> {
    let hex = strip_hash(s);
    let n = utf8_len(hex);
    if n == 6 {
        match (hex_pair_at(hex, 0), hex_pair_at(hex, 2), hex_pair_at(hex, 4)) {
            (Some(r), Some(g), Some(b)) => Some(seq![r, g, b, 255u8]),
            _ => None,
        }
    } else if n == 8 {
        match (hex_pair_at(hex, 0), hex_pair_at(hex, 2), hex_pair_at(hex, 4), hex_pair_at(hex, 6)) {
            (Some(r), Some(g), Some(b), Some(a)) => Some(seq![r, g, b, a]),
            _ => None,
        }
    } else {
        None
    }
}

/// The text is cut into two-byte pieces only between characters: each cut the
/// parse reaches (it stops at the first piece that is not a hex byte) falls on a
/// character boundary.
pub open spec fn hex_cuts_ok(s: Seq<char>) -> bool {
    let hex = strip_hash(s);
    let n = utf8_len(hex);
    (n == 6 || n == 8) ==> {
        &&& byte_boundary(hex, 2)
        &&& (hex_pair_at(hex, 0) is Some ==> byte_boundary(hex, 4))
        &&& (n == 8 && hex_pair_at(hex, 0) is Some && hex_pair_at(hex, 2) is Some
            ==> byte_boundary(hex, 6))
    }
}

/// The value of a hex digit, if `c` is one.
fn hex_digit_value(c: char) -> (r: Option<u8>)
    ensures
        match r {
            Some(v) => hex_digit(c) == Some(v as int),
            None => hex_digit(c) is None,
        },
{
    if '0' <= c && c <= '9' {
        Some((c as u32 - '0' as u32) as u8)
    } else if 'a' <= c && c <= 'f' {
        Some((c as u32 - 'a' as u32 + 10) as u8)
    } else if 'A' <= c && c <= 'F' {
        Some((c as u32 - 'A' as u32 + 10) as u8)
    } else {
        None
    }
}

/// The byte characters `i` and `i + 1` spell.
fn hex_pair(hex: &Vec<char>, i: usize) -> (r: Option<u8>)
    ensures
        r == hex_pair_at(hex@, i as int),
{
    if hex.len() < 2 || i > hex.len() - 2 {
        return None;
    }
    let a = hex[i];
    let b = hex[i + 1];
    if (a as u32) >= 0x80 || (b as u32) >= 0x80 {
        return None;
    }
    if a == '+' {
        match hex_digit_value(b) {
            Some(v) => Some(v),
            None => None,
        }
    } else {
        match (hex_digit_value(a), hex_digit_value(b)) {
            (Some(x), Some(y)) => Some(16 * x + y),
            _ => None,
        }
    }
}

/// Parses `#RRGGBB` or `#RRGGBBAA` (the `#` is optional) into RGBA.
pub fn parse_hex_color(color_str: &str) -> (r: Option<[u8; 4]>)
    requires
        hex_cuts_ok(color_str@),
    ensures
        match r {
            Some(c) => hex_color(color_str@) == Some(c@),
            None => hex_color(color_str@) is None,
        },
{
    let chars = chars_of(color_str);
    let start: usize = if chars.len() > 0 && chars[0] == '#' {
        1
    } else {
        0
    };
    let hex = slice_of(&chars, start, chars.len());
    assert(hex@ =~= strip_hash(color_str@));
    let n = utf8_length(&hex);
    if n == 6 {
        match (hex_pair(&hex, 0), hex_pair(&hex, 2), hex_pair(&hex, 4)) {
            (Some(r), Some(g), Some(b)) => {
                let c = [r, g, b, 255u8];
                assert(c@ =~= seq![r, g, b, 255u8]);
                Some(c)
            },
            _ => None,
        }
    } else if n == 8 {
        match (hex_pair(&hex, 0), hex_pair(&hex, 2), hex_pair(&hex, 4), hex_pair(&hex, 6)) {
            (Some(r), Some(g), Some(b), Some(a)) => {
                let c = [r, g, b, a];
                assert(c@ =~= seq![r, g, b, a]);
                Some(c)
            },
            _ => None,
        }
    } else {
        None
    }
}

/// `"transparent"` (trimmed, any ASCII case) means no color; anything else is a
/// hex color.
pub open spec fn optional_hex_color(s: Seq<char>) -> Option<Seq<u8>> {
    if eq_ignore_ascii_case(trim(s), "transparent"@) {
        None
    } else {
        hex_color(s)
    }
}

/// Parses an optional color: `transparent` or a hex color.
pub fn parse_optional_hex_color(color_str: &str) -> (r: Option<[u8; 4]>)
    requires
        eq_ignore_ascii_case(trim(color_str@), "transparent"@) || hex_cuts_ok(color_str@),
    ensures
        match r {
            Some(c) => optional_hex_color(color_str@) == Some(c@),
            None => optional_hex_color(color_str@) is None,
        },
{
    let chars = chars_of(color_str);
    let trimmed = trim_chars(&chars);
    if is_word_ignoring_ascii_case(&trimmed, "transparent") {
        None
    } else {
        parse_hex_color(color_str)
    }
}

/// The name shown for an ink color.
pub open spec fn color_name(c: Seq<u8>) -> Seq<char> {
    let (r, g, b, a) = (c[0], c[1], c[2], c[3]);
    if (r == 220 && g == 30 && b == 30 && a == 255) || (r == 255 && g == 0 && b == 0 && a == 255) {
        "Red"@
    } else if (r == 30 && g == 100 && b == 220 && a == 255) || (r == 0 && g == 110 && b == 255 && a
        == 255) {
        "Blue"@
    } else if (r == 30 && g == 180 && b == 30 && a == 255) || (r == 0 && g == 190 && b == 60 && a
        == 255) {
        "Green"@
    } else if (r == 220 && g == 200 && b == 0 && a == 255) || (r == 255 && (g == 210 || g == 220)
        && b == 0) {
        "Yellow"@
    } else if r == 60 && g == 220 && b == 60 {
        "Green"@
    } else if r == 0 && g == 200 && b == 255 {
        "Cyan"@
    } else if r == 255 && g == 80 && b == 180 {
        "Pink"@
    } else if r == 255 && g == 255 && b == 255 && a == 255 {
        "White"@
    } else if r == 0 && g == 0 && b == 0 && a == 255 {
        "Black"@
    } else {
        "Color"@
    }
}

/// The label of an ink color in the toolbar.
pub fn color_label(rgba: [u8; 4]) -> (r: &'static str)
    ensures
        r@ == color_name(rgba@),
{
    let r = rgba[0];
    let g = rgba[1];
    let b = rgba[2];
    let a = rgba[3];
    if (r == 220 && g == 30 && b == 30 && a == 255) || (r == 255 && g == 0 && b == 0 && a == 255) {
        "Red"
    } else if (r == 30 && g == 100 && b == 220 && a == 255) || (r == 0 && g == 110 && b == 255 && a
        == 255) {
        "Blue"
    } else if (r == 30 && g == 180 && b == 30 && a == 255) || (r == 0 && g == 190 && b == 60 && a
        == 255) {
        "Green"
    } else if (r == 220 && g == 200 && b == 0 && a == 255) || (r == 255 && (g == 210 || g == 220)
        && b == 0) {
        "Yellow"
    } else if r == 60 && g == 220 && b == 60 {
        "Green"
    } else if r == 0 && g == 200 && b == 255 {
        "Cyan"
    } else if r == 255 && g == 80 && b == 180 {
        "Pink"
    } else if r == 255 && g == 255 && b == 255 && a == 255 {
        "White"
    } else if r == 0 && g == 0 && b == 0 && a == 255 {
        "Black"
    } else {
        "Color"
    }
}

// ---------------------------------------------------------------------------
// Ink pen colors
// ---------------------------------------------------------------------------

/// The colors that fill up a short preset list: red, blue, green, yellow.
pub open spec fn fallback_ink_colors() -> Seq<Seq<u8>> {
    seq![
        seq![220u8, 30u8, 30u8, 255u8],
        seq![30u8, 100u8, 220u8, 255u8],
        seq![30u8, 180u8, 30u8, 255u8],
        seq![220u8, 200u8, 0u8, 255u8],
    ]
}

/// The configured colors that parse, in order.
pub open spec fn parsed_colors(colors: Seq<Seq<char>>) -> Seq<Seq<u8>>
    decreases colors.len(),
{
    if colors.len() == 0 {
        seq![]
    } else {
        let rest = parsed_colors(colors.drop_last());
        match hex_color(colors.last()) {
            Some(c) => rest.push(c),
            None => rest,
        }
    }
}

/// The pen presets: the configured colors that parse, followed by as many
/// fallback colors as it takes to have four.
pub open spec fn ink_presets(colors: Seq<Seq<char>>) -> Seq<Seq<u8>> {
    let p = parsed_colors(colors);
    if p.len() >= 4 {
        p
    } else {
        p + fallback_ink_colors().take(4 - p.len())
    }
}

/// The colors of `v`.
pub open spec fn color_values(v: Seq<[u8; 4]>) -> Seq<Seq<u8>> {
    v.map_values(|c: [u8; 4]| c@)
}

/// The texts of `v`.
pub open spec fn string_values(v: Seq<String>) -> Seq<Seq<char>> {
    v.map_values(|s: String| s@)
}

/// The fallback color at `i` (below four).
fn fallback_ink_color(i: usize) -> (r: [u8; 4])
    requires
        i < 4,
    ensures
        r@ == fallback_ink_colors()[i as int],
{
    let r: [u8; 4] = if i == 0 {
        [220, 30, 30, 255]
    } else if i == 1 {
        [30, 100, 220, 255]
    } else if i == 2 {
        [30, 180, 30, 255]
    } else {
        [220, 200, 0, 255]
    };
    assert(r@ =~= fallback_ink_colors()[i as int]);
    r
}

/// The pen color presets for configured color texts.
pub fn ink_color_presets(colors: &Vec<String>) -> (r: Vec<[u8; 4]>)
    requires
        forall|i: int| 0 <= i < colors@.len() ==> hex_cuts_ok(#[trigger] colors@[i]@),
    ensures
        color_values(r@) == ink_presets(string_values(colors@)),
        r@.len() >= 4,
{
    let mut presets: Vec<[u8; 4]> = Vec::new();
    let mut i: usize = 0;
    while i < colors.len()
        invariant
            i <= colors@.len(),
            forall|k: int| 0 <= k < colors@.len() ==> hex_cuts_ok(#[trigger] colors@[k]@),
            color_values(presets@) == parsed_colors(string_values(colors@.take(i as int))),
        decreases colors@.len() - i,
    {
        proof {
            assert(string_values(colors@.take(i + 1)).drop_last() =~= string_values(
                colors@.take(i as int),
            ));
            assert(string_values(colors@.take(i + 1)).last() == colors@[i as int]@);
        }
        match parse_hex_color(colors[i].as_str()) {
            Some(c) => {
                presets.push(c);
                assert(color_values(presets@) =~= color_values(presets@.drop_last()).push(c@));
            },
            None => {},
        }
        i = i + 1;
    }
    assert(colors@.take(colors@.len() as int) =~= colors@);
    let ghost parsed = color_values(presets@);
    let mut k: usize = 0;
    while presets.len() < 4
        invariant
            k <= 4,
            parsed.len() < 4 ==> k + parsed.len() == presets@.len(),
            parsed.len() < 4 ==> color_values(presets@) == parsed + fallback_ink_colors().take(k as int),
            parsed.len() < 4 ==> presets@.len() <= 4,
            parsed.len() >= 4 ==> k == 0 && color_values(presets@) == parsed,
        decreases 4 - k,
    {
        let ghost before = presets@;
        let c = fallback_ink_color(k);
        presets.push(c);
        proof {
            assert(color_values(presets@) =~= color_values(before).push(c@));
            assert(fallback_ink_colors().take(k + 1) =~= fallback_ink_colors().take(k as int).push(
                fallback_ink_colors()[k as int],
            ));
            assert(color_values(presets@) =~= parsed + fallback_ink_colors().take(k + 1));
        }
        k = k + 1;
    }
    proof {
        if parsed.len() < 4 {
            assert(k + parsed.len() == 4);
        }
    }
    presets
}

/// Where `c` first occurs in `p`, or `None`.
pub open spec fn color_position(p: Seq<Seq<u8>>, c: Seq<u8>) -> Option<int>
    decreases p.len(),
{
    if p.len() == 0 {
        None
    } else if p[0] == c {
        Some(0)
    } else {
        match color_position(p.drop_first(), c) {
            Some(i) => Some(i + 1),
            None => None,
        }
    }
}

/// `CycleInkColor`: the preset after the current color (after the first one when
/// the current color is not a preset); no presets keep the color.
pub open spec fn next_color(p: Seq<Seq<u8>>, c: Seq<u8>) -> Seq<u8> {
    if p.len() == 0 {
        c
    } else {
        let idx = match color_position(p, c) {
            Some(i) => i,
            None => 0,
        };
        p[(idx + 1) % (p.len() as int)]
    }
}

/// The pen color after `CycleInkColor`.
pub fn next_ink_color(presets: &Vec<[u8; 4]>, current: [u8; 4]) -> (r: [u8; 4])
    ensures
        r@ == next_color(color_values(presets@), current@),
{
    if presets.len() == 0 {
        return current;
    }
    let ghost p = color_values(presets@);
    let mut idx: usize = 0;
    let mut found = false;
    let mut i: usize = 0;
    assert(p.skip(0) =~= p);
    while i < presets.len() && !found
        invariant
            p == color_values(presets@),
            0 < presets@.len(),
            i <= presets@.len(),
            found ==> i > 0 && idx == i - 1 && color_position(p, current@) == Some(idx as int),
            !found ==> idx == 0 && color_position(p, current@) == match color_position(
                p.skip(i as int),
                current@,
            ) {
                Some(j) => Some(j + i),
                None => None,
            },
        decreases presets@.len() - i,
    {
        let c = presets[i];
        if c[0] == current[0] && c[1] == current[1] && c[2] == current[2] && c[3] == current[3] {
            assert(c@ =~= current@);
            assert(p.skip(i as int)[0] == c@);
            idx = i;
            found = true;
        } else {
            proof {
                assert(p.skip(i as int)[0] == c@);
                assert(c@ != current@) by {
                    if c@ == current@ {
                        assert(c@[0] == current@[0]);
                        assert(c@[1] == current@[1]);
                        assert(c@[2] == current@[2]);
                        assert(c@[3] == current@[3]);
                    }
                }
                assert(p.skip(i as int).drop_first() =~= p.skip(i + 1));
            }
        }
        i = i + 1;
    }
    proof {
        if !found {
            assert(p.skip(i as int).len() == 0);
        }
    }
    let next = (idx + 1) % presets.len();
    presets[next]
}


/// The pen color a presentation starts with: the first preset, or opaque red
/// without presets.
pub fn starting_pen_color(presets: &Vec<[u8; 4]>) -> (r: [u8; 4])
    ensures
        presets@.len() > 0 ==> r == presets@[0],
        presets@.len() == 0 ==> r@ == seq![255u8, 0u8, 0u8, 255u8],
{
    if presets.len() > 0 {
        presets[0]
    } else {
        let r: [u8; 4] = [255, 0, 0, 255];
        assert(r@ =~= seq![255u8, 0u8, 0u8, 255u8]);
        r
    }
}

/// A preset's first occurrence is found where it stands.
proof fn lemma_color_position_first(p: Seq<Seq<u8>>, i: int)
    requires
        0 <= i < p.len(),
        forall|j: int| 0 <= j < i ==> p[j] != p[i],
    ensures
        color_position(p, p[i]) == Some(i),
    decreases i,
{
    if i > 0 {
        let q = p.drop_first();
        assert(q[i - 1] == p[i]);
        assert forall|j: int| 0 <= j < i - 1 implies #[trigger] q[j] != q[i - 1] by {
            assert(q[j] == p[j + 1]);
        }
        lemma_color_position_first(q, i - 1);
    }
}

/// Cycling the pen color steps through the presets in order: from the first
/// occurrence of a preset it moves to the one after it, and from the last back
/// to the first; the color reached is always a preset.
pub proof fn law_ink_colors_cycle_in_order(p: Seq<Seq<u8>>, i: int, c: Seq<u8>)
    requires
        0 <= i < p.len(),
        forall|j: int| 0 <= j < i ==> p[j] != p[i],
    ensures
        next_color(p, p[i]) == p[(i + 1) % p.len() as int],
        p.contains(next_color(p, c)),
{
    lemma_color_position_first(p, i);
    let idx = match color_position(p, c) {
        Some(k) => k,
        None => 0,
    };
    lemma_color_position_bound(p, c);
    let n = (idx + 1) % (p.len() as int);
    assert(0 <= n < p.len());
    assert(p[n] == next_color(p, c));
}

/// A found position lies within the sequence.
proof fn lemma_color_position_bound(p: Seq<Seq<u8>>, c: Seq<u8>)
    ensures
        color_position(p, c) matches Some(k) ==> 0 <= k < p.len(),
    decreases p.len(),
{
    if p.len() > 0 {
        lemma_color_position_bound(p.drop_first(), c);
    }
}


} // verus!
