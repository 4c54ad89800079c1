use dais::style::{color_label, parse_hex_color, parse_optional_hex_color, parse_pointer_style, PointerStyle};

#[test]
fn parse_hex_color_6_digit() {
    assert_eq!(parse_hex_color("#FF0000"), Some([255, 0, 0, 255]));
    assert_eq!(parse_hex_color("00FF00"), Some([0, 255, 0, 255]));
    assert_eq!(parse_hex_color("#0000ff"), Some([0, 0, 255, 255]));
}

#[test]
fn parse_hex_color_8_digit() {
    assert_eq!(parse_hex_color("#FF000080"), Some([255, 0, 0, 128]));
}

#[test]
fn parse_hex_color_invalid() {
    assert_eq!(parse_hex_color(""), None);
    assert_eq!(parse_hex_color("#FFF"), None);
    assert_eq!(parse_hex_color("ZZZZZZ"), None);
}

#[test]
fn parse_optional_hex_color_transparent() {
    assert_eq!(parse_optional_hex_color("transparent"), None);
    assert_eq!(parse_optional_hex_color(" TRANSPARENT "), None);
    assert_eq!(parse_optional_hex_color("#01020380"), Some([1, 2, 3, 128]));
}

#[test]
fn parse_pointer_style_variants() {
    assert_eq!(parse_pointer_style("dot"), PointerStyle::Dot);
    assert_eq!(parse_pointer_style("minimal"), PointerStyle::Minimal);
    assert_eq!(parse_pointer_style("crosshair"), PointerStyle::Crosshair);
    assert_eq!(parse_pointer_style("arrow"), PointerStyle::Arrow);
    assert_eq!(parse_pointer_style("ring"), PointerStyle::Ring);
    assert_eq!(parse_pointer_style("bullseye"), PointerStyle::Bullseye);
    assert_eq!(parse_pointer_style("highlight"), PointerStyle::Highlight);
    assert_eq!(parse_pointer_style("unknown"), PointerStyle::Dot);
}

#[test]
fn pointer_style_names_ignore_case_and_spaces() {
    assert_eq!(parse_pointer_style("  RING\n"), PointerStyle::Ring);
    assert_eq!(parse_pointer_style("Bullseye"), PointerStyle::Bullseye);
}

#[test]
fn hex_pairs_accept_plus_sign_and_reject_other_lengths() {
    assert_eq!(parse_hex_color("+F+F+F"), Some([15, 15, 15, 255]));
    assert_eq!(parse_hex_color("##FF0000"), None);
    assert_eq!(parse_hex_color("#FF00001"), None);
    assert_eq!(parse_hex_color("#aBcDeF"), Some([0xab, 0xcd, 0xef, 255]));
    // Non-ASCII text of six bytes cut on character boundaries is no color.
    assert_eq!(parse_hex_color("ééé"), None);
}

#[test]
fn laser_style_cycle_visits_every_style() {
    let mut style = PointerStyle::default();
    let mut seen = vec![style];
    for _ in 0..7 {
        style = style.next();
        seen.push(style);
    }
    assert_eq!(style, PointerStyle::Dot);
    assert_eq!(
        seen,
        vec![
            PointerStyle::Dot,
            PointerStyle::Minimal,
            PointerStyle::Crosshair,
            PointerStyle::Arrow,
            PointerStyle::Ring,
            PointerStyle::Bullseye,
            PointerStyle::Highlight,
            PointerStyle::Dot,
        ]
    );
}

#[test]
fn ink_color_labels() {
    assert_eq!(color_label([255, 0, 0, 255]), "Red");
    assert_eq!(color_label([0, 110, 255, 255]), "Blue");
    assert_eq!(color_label([255, 220, 0, 10]), "Yellow");
    assert_eq!(color_label([60, 220, 60, 128]), "Green");
    assert_eq!(color_label([1, 2, 3, 4]), "Color");
}
