use rulmee::config::{parse_box_type, select_config_path, BoxType, Config, ConfigFile};
use rulmee::overrides::{help_text, OverrideTable, OverrideValue};

fn s(x: &str) -> String {
    x.to_string()
}

#[test]
fn test_theme_config_defaults() {
    let config = Config::default();
    assert_eq!(config.functions.theme.as_deref(), Some("F3"));
    assert_eq!(config.strings.f_theme.as_deref(), Some("theme"));
}

#[test]
fn test_logging_and_auth_config_defaults() {
    let config = Config::default();
    assert_eq!(config.logging.file, "/tmp/rulmee.log");
    assert_eq!(config.logging.level, "debug");
    assert!(!config.logging.stdout);
    assert_eq!(config.auth.pam_service, "login");
}

#[test]
fn test_resolve_config_path_neither_exists() {
    let primary = "/nonexistent/path/rulmee_custom_missing.toml";
    let (resolved, warning) = Config::resolve_config_path_with_custom_fallback(
        primary,
        primary,
        "/nonexistent/path/lidm_custom_missing.toml",
    );
    assert_eq!(resolved, primary);
    assert!(warning.is_none());
}

#[test]
fn test_resolve_config_path_default_nonexistent() {
    let (resolved, _) = Config::resolve_config_path("/some/arbitrary/path.toml");
    assert_eq!(resolved, "/some/arbitrary/path.toml");
}

#[test]
fn test_resolve_default_copy_path_custom() {
    let custom = "/tmp/custom_rulmee_config.toml";
    let path = Config::resolve_default_copy_path(Some(custom), None, None);
    assert_eq!(path, custom);
}

#[test]
fn test_extract_cli_overrides_basic() {
    let raw_args = vec![
        s("rulmee"),
        s("-c"),
        s("/etc/rulmee/default.toml"),
        s("--behavior-box-type"),
        s("rounded"),
        s("--behavior_refresh_rate=250"),
        s("--behavior-show-console"),
        s("--auth-pam-service"),
        s("custom-pam"),
        s("2"),
    ];

    let (overrides, remaining) = Config::extract_cli_overrides(&raw_args);

    assert_eq!(remaining, vec!["rulmee", "-c", "/etc/rulmee/default.toml", "2"]);

    match overrides.get("behavior", "box_type") {
        Some(OverrideValue::Text(v)) => assert_eq!(v, "rounded"),
        other => panic!("unexpected {:?}", other),
    }
    match overrides.get("behavior", "refresh_rate") {
        Some(OverrideValue::Integer(v)) => assert_eq!(v, 250),
        other => panic!("unexpected {:?}", other),
    }
    match overrides.get("behavior", "show_console") {
        Some(OverrideValue::Boolean(v)) => assert!(v),
        other => panic!("unexpected {:?}", other),
    }
    match overrides.get("auth", "pam_service") {
        Some(OverrideValue::Text(v)) => assert_eq!(v, "custom-pam"),
        other => panic!("unexpected {:?}", other),
    }
}

#[test]
fn test_extract_cli_overrides_arrays_and_booleans() {
    let raw_args = vec![
        s("rulmee"),
        s("--behavior-source=/etc/profile,/etc/environment"),
        s("--behavior-include-defshell"),
        s("false"),
        s("--logging-stdout"),
        s("true"),
    ];

    let (overrides, remaining) = Config::extract_cli_overrides(&raw_args);
    assert_eq!(remaining, vec!["rulmee"]);

    match overrides.get("behavior", "source") {
        Some(OverrideValue::Array(sources)) => {
            assert_eq!(sources.len(), 2);
            assert_eq!(sources[0], "/etc/profile");
            assert_eq!(sources[1], "/etc/environment");
        }
        other => panic!("unexpected {:?}", other),
    }
    match overrides.get("behavior", "include_defshell") {
        Some(OverrideValue::Boolean(v)) => assert!(!v),
        other => panic!("unexpected {:?}", other),
    }
    match overrides.get("logging", "stdout") {
        Some(OverrideValue::Boolean(v)) => assert!(v),
        other => panic!("unexpected {:?}", other),
    }
}

#[test]
fn test_apply_table_overrides() {
    let mut config = Config::default();
    let mut table = OverrideTable::new();
    table.insert(s("behavior"), s("refresh_rate"), OverrideValue::Integer(999));
    table.insert(s("behavior"), s("box_type"), OverrideValue::Text(s("block")));

    config.apply_table_overrides(&table);
    assert_eq!(config.behavior.refresh_rate, 999);
    assert_eq!(config.behavior.box_type, BoxType::Block);
}

#[test]
fn apply_table_overrides_ignores_whole_table_when_one_entry_does_not_fit() {
    let mut config = Config::default();
    let mut table = OverrideTable::new();
    table.insert(s("behavior"), s("refresh_rate"), OverrideValue::Integer(999));
    table.insert(s("behavior"), s("box_type"), OverrideValue::Integer(3));
    config.apply_table_overrides(&table);
    assert_eq!(config.behavior.refresh_rate, 100);
    assert_eq!(config.behavior.box_type, BoxType::Border);
}

#[test]
fn apply_table_overrides_later_entry_wins() {
    let mut config = Config::default();
    let mut table = OverrideTable::new();
    table.insert(s("behavior"), s("refresh_rate"), OverrideValue::Integer(5));
    table.insert(s("behavior"), s("refresh_rate"), OverrideValue::Integer(7));
    config.apply_table_overrides(&table);
    assert_eq!(config.behavior.refresh_rate, 7);
}

#[test]
fn env_overrides_apply_and_cli_wins_over_env() {
    let vars = vec![
        (s("RULMEE_BEHAVIOR_REFRESH_RATE"), s("300")),
        (s("RULMEE_AUTH_PAM_SERVICE"), s("gdm")),
        (s("UNRELATED"), s("x")),
    ];
    let (cli, _) = Config::extract_cli_overrides(&[s("rulmee"), s("--behavior-refresh-rate=42")]);
    let (cfg, msg) = Config::finish_load("/etc/rulmee/default.toml", ConfigFile::Missing, None, &vars, Some(&cli));
    assert_eq!(cfg.behavior.refresh_rate, 42);
    assert_eq!(cfg.auth.pam_service, "gdm");
    assert!(msg.is_none());
}

#[test]
fn apply_env_overrides_sets_strings() {
    let mut config = Config::default();
    config.apply_env_overrides(&[(s("RULMEE_STRINGS_E_USER"), s("login"))]);
    assert_eq!(config.strings.e_user, "login");
}

#[test]
fn finish_load_reports_unreadable_file_and_uses_defaults() {
    let (cfg, msg) = Config::finish_load(
        "/etc/rulmee/default.toml",
        ConfigFile::Unreadable(s("bad toml")),
        Some(s("ignored warning")),
        &[],
        None,
    );
    assert_eq!(cfg.behavior.refresh_rate, 100);
    assert_eq!(
        msg.as_deref(),
        Some("Failed to parse config from '/etc/rulmee/default.toml': bad toml. Falling back to default configuration.")
    );
}

#[test]
fn finish_load_keeps_parsed_file_and_path_warning() {
    let mut parsed = Config::default();
    parsed.behavior.show_console = true;
    let (cfg, msg) = Config::finish_load("/x.toml", ConfigFile::Parsed(parsed), Some(s("w")), &[], None);
    assert!(cfg.behavior.show_console);
    assert_eq!(msg.as_deref(), Some("w"));
}

#[test]
fn select_config_path_falls_back_with_warning() {
    let (path, warning) = select_config_path(
        "/etc/rulmee/default.toml",
        "/etc/rulmee/default.toml",
        "/etc/lidm/default.toml",
        false,
        true,
    );
    assert_eq!(path, "/etc/lidm/default.toml");
    let w = warning.unwrap();
    assert_eq!(
        w,
        "Path '/etc/rulmee/default.toml' not found; falling back to legacy '/etc/lidm/default.toml' (deprecated). Please migrate configuration to '/etc/rulmee'."
    );
}

#[test]
fn select_config_path_prefers_existing_primary() {
    let (path, warning) = select_config_path("/a.toml", "/a.toml", "/b.toml", true, true);
    assert_eq!(path, "/a.toml");
    assert!(warning.is_none());
}

#[test]
fn resolve_default_copy_path_uses_xdg_then_home_then_etc() {
    assert_eq!(
        Config::resolve_default_copy_path(Some("  "), Some("/x"), Some("/home/a")),
        "/x/rulmee/default.toml"
    );
    assert_eq!(
        Config::resolve_default_copy_path(None, Some(" "), Some("/home/a")),
        "/home/a/.config/rulmee/default.toml"
    );
    assert_eq!(Config::resolve_default_copy_path(None, None, None), "/etc/rulmee/default.toml");
}

#[test]
fn parse_box_type_names() {
    assert_eq!(parse_box_type("border"), Some(BoxType::Border));
    assert_eq!(parse_box_type("none"), Some(BoxType::Borderless));
    assert_eq!(parse_box_type("rounded"), Some(BoxType::Rounded));
    assert_eq!(parse_box_type("block"), Some(BoxType::Block));
    assert_eq!(parse_box_type("fancy"), None);
}

#[test]
fn cli_override_names_are_case_insensitive() {
    let (overrides, remaining) = Config::extract_cli_overrides(&[s("--Behavior-Refresh-Rate=5"), s("--unknown-x"), s("--")]);
    assert_eq!(remaining, vec!["--unknown-x", "--"]);
    match overrides.get("behavior", "refresh_rate") {
        Some(OverrideValue::Integer(v)) => assert_eq!(v, 5),
        other => panic!("unexpected {:?}", other),
    }
}

#[test]
fn test_config_automatic_env_overrides() {
    let vars = vec![
        (s("RULMEE_LOGGING_LEVEL"), s("warn")),
        (s("RULMEE_LOGGING_STDOUT"), s("true")),
        (s("RULMEE_AUTH_PAM_SERVICE"), s("custom-pam")),
        (s("RULMEE_BEHAVIOR_REFRESH_RATE"), s("250")),
    ];
    let mut config = Config::default();
    config.apply_env_overrides(&vars);

    assert_eq!(config.logging.level, "warn");
    assert!(config.logging.stdout);
    assert_eq!(config.auth.pam_service, "custom-pam");
    assert_eq!(config.behavior.refresh_rate, 250);
}

#[test]
fn test_config_legacy_env_overrides_fallback() {
    let vars = vec![(s("LIDM_LOGGING_LEVEL"), s("warn")), (s("LIDM_BEHAVIOR_REFRESH_RATE"), s("250"))];
    let mut config = Config::default();
    config.apply_env_overrides(&vars);

    assert_eq!(config.logging.level, "warn");
    assert_eq!(config.behavior.refresh_rate, 250);
}

#[test]
fn test_config_arbitrary_env_override_strings() {
    let mut config = Config::default();
    config.apply_env_overrides(&[(s("RULMEE_STRINGS_F_POWEROFF"), s("dsds"))]);
    assert_eq!(config.strings.f_poweroff, "dsds");
}

#[test]
fn load_precedence_over_a_parsed_file() {
    let mut from_file = Config::default();
    from_file.logging.level = s("info");
    from_file.logging.file = s("/tmp/toml.log");
    from_file.auth.pam_service = s("toml-pam");
    from_file.behavior.refresh_rate = 150;

    let vars = vec![(s("RULMEE_LOGGING_LEVEL"), s("warn")), (s("RULMEE_BEHAVIOR_REFRESH_RATE"), s("300"))];
    let raw_args = vec![
        s("rulmee"),
        s("-c"),
        s("/tmp/test_rulmee_precedence.toml"),
        s("--logging-file"),
        s("/tmp/cli.log"),
        s("--logging-level"),
        s("error"),
        s("--behavior-refresh-rate"),
        s("450"),
        s("--behavior-box-type"),
        s("rounded"),
    ];
    let (cli_overrides, _remaining) = Config::extract_cli_overrides(&raw_args);
    let (config, err_opt) = Config::finish_load(
        "/tmp/test_rulmee_precedence.toml",
        ConfigFile::Parsed(from_file),
        None,
        &vars,
        Some(&cli_overrides),
    );
    assert!(err_opt.is_none());
    assert_eq!(config.logging.file, "/tmp/cli.log");
    assert_eq!(config.logging.level, "error");
    assert_eq!(config.behavior.refresh_rate, 450);
    assert_eq!(config.behavior.box_type, BoxType::Rounded);
    assert_eq!(config.auth.pam_service, "toml-pam");
}

#[test]
fn set_flag_overrides_a_key() {
    let (overrides, remaining) =
        Config::extract_cli_overrides(&[s("rulmee"), s("--set"), s("behavior.include_defshell=true")]);
    assert_eq!(remaining, vec!["rulmee"]);
    match overrides.get("behavior", "include_defshell") {
        Some(OverrideValue::Boolean(b)) => assert!(b),
        other => panic!("unexpected {:?}", other),
    }
    let (overrides, remaining) = Config::extract_cli_overrides(&[s("--set=Auth.pam-service=gdm"), s("7")]);
    assert_eq!(remaining, vec!["7"]);
    match overrides.get("auth", "pam_service") {
        Some(OverrideValue::Text(v)) => assert_eq!(v, "gdm"),
        other => panic!("unexpected {:?}", other),
    }
    let (overrides, remaining) = Config::extract_cli_overrides(&[s("--set"), s("nosuch.key=1")]);
    assert!(overrides.is_empty());
    assert_eq!(remaining, vec!["--set", "nosuch.key=1"]);
}

#[test]
fn help_text_lists_each_flag_with_its_default() {
    let sections = vec![
        (
            "behavior".to_string(),
            vec![
                ("box_type".to_string(), "\"rounded\"".to_string()),
                ("refresh_rate".to_string(), "100".to_string()),
            ],
        ),
        ("auth".to_string(), vec![("pam_service".to_string(), "\"rulmee\"".to_string())]),
    ];
    let help = help_text(&sections);
    assert!(help.starts_with("Configuration Overrides:\n"));
    assert!(help.contains("  [behavior]:\n"));
    assert!(help.contains("--behavior-box-type"));
    assert!(help.contains("--auth-pam-service"));
    assert!(help.contains("[default: 100]"));
    let line = format!("    {:<38} [default: 100]\n", "--behavior-refresh-rate");
    assert!(help.contains(&line));
    assert!(help.ends_with("[default: \"rulmee\"]\n\n"));
    let long_key = vec![("x".to_string(), vec![("a_very_long_key_name_that_passes_the_width".to_string(), "1".to_string())])];
    assert!(help_text(&long_key).contains("    --x-a-very-long-key-name-that-passes-the-width [default: 1]\n"));
}
