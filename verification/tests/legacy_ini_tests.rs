use rulmee::legacy_ini::{format_hex_color, parse_ansi_style, parse_legacy_ini};

#[test]
fn test_parse_ansi_style_rgb() {
    let style = parse_ansi_style("48;2;77;33;55");
    assert_eq!(style.bg.as_deref(), Some("#4d2137"));

    let style_fg = parse_ansi_style("22;3;24;38;2;245;245;245");
    assert_eq!(style_fg.color.as_deref(), Some("#f5f5f5"));
    assert!(style_fg.modifiers.iter().any(|m| m == "italic"));
}

#[test]
fn test_parse_ansi_style_standard_colors_and_modifiers() {
    let style = parse_ansi_style("1;4;31");
    assert_eq!(style.color.as_deref(), Some("red"));
    assert!(style.modifiers.iter().any(|m| m == "bold"));
    assert!(style.modifiers.iter().any(|m| m == "underlined"));
}

#[test]
fn legacy_ini_content_sets_named_entries() {
    let ini_content = "\n[colors]\nbg = \"48;2;30;30;46\"\nfg = \"38;2;205;214;244\"\ne_hostname = \"1;31\"\n";
    let colors = parse_legacy_ini(ini_content);
    assert_eq!(colors.bg.bg.as_deref(), Some("#1e1e2e"));
    assert_eq!(colors.fg.color.as_deref(), Some("#cdd6f4"));
    assert_eq!(colors.e_hostname.color.as_deref(), Some("red"));
    assert!(colors.e_hostname.modifiers.iter().any(|m| m == "bold"));
}

#[test]
fn hex_colors_are_two_lowercase_digits_each() {
    assert_eq!(format_hex_color(0, 15, 255), "#000fff");
}

#[test]
fn repeated_sgr_codes_list_a_modifier_once() {
    let style = parse_ansi_style("1;1;3;1");
    assert_eq!(style.modifiers, vec!["bold", "italic"]);
}

#[test]
fn unknown_sgr_codes_change_nothing_and_modifiers_are_known_names() {
    let style = parse_ansi_style("0;22;99;x");
    assert_eq!(style.color, None);
    assert_eq!(style.bg, None);
    assert!(style.modifiers.is_empty());
    assert_eq!(parse_ansi_style("1;1;1").modifiers, vec!["bold"]);
    let all = parse_ansi_style("1;2;3;4;5;6;7;8;9");
    assert_eq!(
        all.modifiers,
        vec!["bold", "dim", "italic", "underlined", "slow_blink", "rapid_blink", "reversed", "hidden", "crossed_out"]
    );
}

#[test]
fn sgr_modifiers_keep_the_order_of_first_reading() {
    let style = parse_ansi_style("3;1;31;3;9");
    assert_eq!(style.modifiers, vec!["italic", "bold", "crossed_out"]);
    assert_eq!(style.color.as_deref(), Some("red"));
    assert_eq!(parse_ansi_style("38;1;3;1").modifiers, vec!["bold", "italic"]);
}
