use rulmee::session::{
    desktop_names_of, is_desktop_file, parse_exec_string, session_from_entry, session_sources,
    DesktopEntryInfo, ExecType, SessionType,
};

#[test]
fn test_parse_exec_string_plain() {
    assert_eq!(parse_exec_string("sway --unsupported-gpu"), vec!["sway", "--unsupported-gpu"]);
}

#[test]
fn test_parse_exec_string_quoted_spaces() {
    assert_eq!(
        parse_exec_string("gnome-session --session=\"gnome fallback\""),
        vec!["gnome-session", "--session=gnome fallback"]
    );
    assert_eq!(
        parse_exec_string("'my program' 'arg with spaces'"),
        vec!["my program", "arg with spaces"]
    );
}

#[test]
fn test_parse_exec_string_escaped_spaces() {
    assert_eq!(parse_exec_string("my\\ app --arg"), vec!["my app", "--arg"]);
}

#[test]
fn test_parse_exec_string_field_codes_stripped() {
    assert_eq!(parse_exec_string("gnome-terminal %u --dir %f"), vec!["gnome-terminal", "--dir"]);
    assert_eq!(parse_exec_string("app --title=%c %F"), vec!["app", "--title="]);
}

#[test]
fn test_parse_exec_string_literal_percent() {
    assert_eq!(parse_exec_string("echo %%USER%%"), vec!["echo", "%USER%"]);
}

#[test]
fn test_parse_exec_string_unclosed_quotes() {
    assert_eq!(
        parse_exec_string("sway --config \"/etc/sway/config"),
        vec!["sway", "--config", "/etc/sway/config"]
    );
}

#[test]
fn test_parse_exec_string_percent_in_quotes_and_non_specifiers() {
    assert_eq!(
        parse_exec_string("app --title=\"100%\" --next"),
        vec!["app", "--title=100%", "--next"]
    );
    assert_eq!(parse_exec_string("echo % 100"), vec!["echo", "%", "100"]);
}

#[test]
fn test_parse_exec_string_quotes_and_specifiers() {
    let input = "sway --config \"/etc/sway/config file\" %u %F";
    let args = parse_exec_string(input);
    assert_eq!(args, vec!["sway", "--config", "/etc/sway/config file"]);
}

#[test]
fn parse_exec_string_keeps_empty_quoted_argument_and_trailing_backslash() {
    assert_eq!(parse_exec_string("app \"\" x"), vec!["app", "", "x"]);
    assert_eq!(parse_exec_string("app\\"), vec!["app"]);
    assert!(parse_exec_string("   ").is_empty());
}

fn entry(show: bool, name: Option<&str>, exec: Option<&str>) -> DesktopEntryInfo {
    DesktopEntryInfo {
        should_show: show,
        name: name.map(|s| s.to_string()),
        exec_line: exec.map(|s| s.to_string()),
        desktop_names: None,
        desktop_names_list: None,
    }
}

#[test]
fn session_from_entry_builds_desktop_session() {
    let mut e = entry(true, Some("Sway"), Some("sway --unsupported-gpu %f"));
    e.desktop_names_list = Some(vec!["sway".to_string(), "wlroots".to_string()]);
    let s = session_from_entry(&e, SessionType::Wayland).unwrap();
    assert_eq!(s.name, "Sway");
    assert_eq!(s.session_type, SessionType::Wayland);
    assert_eq!(s.desktop_names.as_deref(), Some("sway;wlroots"));
    match s.exec_cmd {
        ExecType::Desktop(args) => assert_eq!(args, vec!["sway", "--unsupported-gpu"]),
        ExecType::Shell(_) => panic!("expected a desktop command"),
    }
}

#[test]
fn session_from_entry_skips_hidden_nameless_and_empty_entries() {
    assert!(session_from_entry(&entry(false, Some("a"), Some("a")), SessionType::Xorg).is_none());
    assert!(session_from_entry(&entry(true, None, Some("a")), SessionType::Xorg).is_none());
    assert!(session_from_entry(&entry(true, Some("a"), None), SessionType::Xorg).is_none());
    assert!(session_from_entry(&entry(true, Some("a"), Some("%f  ")), SessionType::Xorg).is_none());
}

#[test]
fn desktop_names_prefers_string_form() {
    let mut e = entry(true, Some("a"), Some("a"));
    e.desktop_names = Some("GNOME".to_string());
    e.desktop_names_list = Some(vec!["x".to_string()]);
    assert_eq!(desktop_names_of(&e).as_deref(), Some("GNOME"));
    e.desktop_names = None;
    e.desktop_names_list = None;
    assert_eq!(desktop_names_of(&e), None);
}

#[test]
fn desktop_files_are_recognised_by_extension() {
    assert!(is_desktop_file("/usr/share/xsessions/i3.desktop"));
    assert!(!is_desktop_file("/usr/share/xsessions/i3.desktop.bak"));
    assert!(!is_desktop_file("/usr/share/xsessions/README"));
}

#[test]
fn session_directories_in_order() {
    let dirs = session_sources();
    assert_eq!(dirs.len(), 4);
    assert_eq!(dirs[0], (SessionType::Xorg, "/usr/share/xsessions".to_string()));
    assert_eq!(dirs[3], (SessionType::Wayland, "/usr/local/share/wayland-sessions".to_string()));
}

#[test]
fn backslash_inside_double_quotes_escapes_quote_backslash_dollar_backtick() {
    assert_eq!(parse_exec_string("\"a\\\"b\""), vec!["a\"b"]);
    assert_eq!(parse_exec_string("\"x\\\\y\" \"\\$HOME\" \"\\`c\\`\""), vec!["x\\y", "$HOME", "`c`"]);
    assert_eq!(parse_exec_string("\"a\\nb\""), vec!["a\\nb"]);
    assert_eq!(parse_exec_string("'a\\'"), vec!["a\\"]);
}

#[test]
fn plain_lines_split_like_split_whitespace() {
    let line = "  sway\t--config  /etc/x \n";
    let expected: Vec<String> = line.split_whitespace().map(String::from).collect();
    assert_eq!(parse_exec_string(line), expected);
}
