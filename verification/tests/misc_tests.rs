use rulmee::auth::{
    auth_failure, messages_after_failure, AuthStage, CapturingConversation,
    PamMessageType,
};
use rulmee::colors::{parse_modifier, resolve_style, Colors, TextModifier, ThemeStyle};
use rulmee::env_map::EnvMap;
use rulmee::launch_state::{format_launch_state, parse_launch_state, LaunchState};
use rulmee::overrides::{env_overrides, OverrideTable, OverrideValue};
use rulmee::signal_handler::signal_response;
use rulmee::text::{contains_str, decimal, i32_text, join, lines, parse_i64, parse_u8};
use rulmee::users::local_user_from;
use ratatui::style::Color;

#[test]
fn test_modifier_exhaustiveness() {
    let modifier_names = [
        "bold", "dim", "italic", "underline", "slow_blink", "rapid_blink", "reversed", "hidden",
        "crossed_out",
    ];
    let mut mapped = Vec::new();
    for name in modifier_names {
        if let Some(m) = parse_modifier(name) {
            if !mapped.contains(&m) {
                mapped.push(m);
            }
        }
    }
    assert_eq!(mapped.len(), 9, "All modifiers should be parseable!");
}

#[test]
fn modifier_names_ignore_case_and_aliases() {
    assert_eq!(parse_modifier("BOLD"), Some(TextModifier::Bold));
    assert_eq!(parse_modifier("Strikethrough"), Some(TextModifier::CrossedOut));
    assert_eq!(parse_modifier("reverse"), Some(TextModifier::Reversed));
    assert_eq!(parse_modifier("blinky"), None);
}

#[test]
fn resolved_styles_keep_known_parts() {
    let style = ThemeStyle::styled("red", &["bold", "nope", "italic"]);
    let r = resolve_style(&style);
    assert_eq!(r.fg, Some(Color::Red));
    assert!(r.bg.is_none());
    assert_eq!(r.modifiers, vec![TextModifier::Bold, TextModifier::Italic]);
    let bad = resolve_style(&ThemeStyle::color("not-a-colour"));
    assert!(bad.fg.is_none());
}

#[test]
fn resolved_styles_keep_each_colour_in_its_place() {
    let style = ThemeStyle {
        color: Some("#102030".to_string()),
        bg: Some("blue".to_string()),
        modifiers: vec![],
    };
    let r = resolve_style(&style);
    assert_eq!(r.fg, Some(Color::Rgb(0x10, 0x20, 0x30)));
    assert_eq!(r.bg, Some(Color::Blue));
    assert!(r.modifiers.is_empty());
}

#[test]
fn colors_set_by_name() {
    let mut c = Colors::default();
    c.set_by_name("e_key", ThemeStyle::color("#010203"));
    assert_eq!(c.e_key.color.as_deref(), Some("#010203"));
    c.set_by_name("unknown", ThemeStyle::color("#000000"));
}

#[test]
fn capturing_conversation_answers_and_records() {
    let mut conv = CapturingConversation::with_credentials("", "pw");
    conv.init(Some("testuser"));
    assert_eq!(conv.prompt_echo_on(), "testuser");
    assert_eq!(conv.prompt_echo_off(), "pw");
    conv.init(Some("other"));
    assert_eq!(conv.prompt_echo_on(), "testuser");
    conv.text_info("hello");
    conv.error_msg("bad");
    assert_eq!(conv.messages.len(), 2);
    assert_eq!(conv.messages[0].msg_type, PamMessageType::Info);
    assert_eq!(conv.messages[1].message, "bad");
}

#[test]
fn auth_failures_carry_stage_and_messages() {
    let mut conv = CapturingConversation::with_credentials("u", "p");
    conv.error_msg("Authentication failure");
    let e = auth_failure(AuthStage::Authenticate, "bad password", &conv.messages);
    assert_eq!(e.to_string(), "pam_authenticate failed: bad password");
    assert_eq!(e.pam_messages.len(), 1);
    let shown = messages_after_failure(&e);
    assert_eq!(shown[0].message, "Authentication failure");

    let e = auth_failure(AuthStage::Start, "no service", &conv.messages);
    assert_eq!(e.message, "pam_start failed: no service");
    assert!(e.pam_messages.is_empty());
    let shown = messages_after_failure(&e);
    assert_eq!(shown.len(), 1);
    assert_eq!(shown[0].msg_type, PamMessageType::Error);
    assert_eq!(shown[0].message, "pam_start failed: no service");
}

#[test]
fn auth_failure_labels_name_the_pam_call() {
    let none: Vec<rulmee::auth::PamMessage> = Vec::new();
    assert_eq!(auth_failure(AuthStage::AccountCheck, "expired", &none).message, "pam_acct_mgmt failed: expired");
    assert_eq!(auth_failure(AuthStage::OpenSession, "x", &none).message, "pam_open_session failed: x");
    assert_eq!(
        auth_failure(AuthStage::ReinitializeCredentials, "y", &none).message,
        "pam_setcred(REINITIALIZE) failed: y"
    );
}

#[test]
fn launch_state_round_trip() {
    let state = LaunchState { username: "alice".to_string(), session_opt: "Sway".to_string() };
    let text = format_launch_state(&state);
    assert_eq!(text, "alice\nSway\n");
    let back = parse_launch_state(&text).unwrap();
    assert_eq!(back.username, "alice");
    assert_eq!(back.session_opt, "Sway");
    assert!(parse_launch_state("only one line").is_none());
    let crlf = parse_launch_state("bob\r\ni3\r\nextra").unwrap();
    assert_eq!(crlf.username, "bob");
    assert_eq!(crlf.session_opt, "i3");
}

#[test]
fn signal_responses() {
    let r = signal_response(1234);
    assert_eq!(r.kill_target, Some(-1234));
    assert!(!r.exit);
    let r = signal_response(0);
    assert_eq!(r.kill_target, None);
    assert!(r.exit);
    let r = signal_response(-5);
    assert_eq!(r.kill_target, None);
    assert!(!r.exit);
}

#[test]
fn local_users_need_home_under_home() {
    let u = local_user_from("alice", "/home/alice", " Alice Liddell ,room 1", "/bin/zsh").unwrap();
    assert_eq!(u.display_name, "Alice Liddell");
    assert_eq!(u.shell, "/bin/zsh");
    let u = local_user_from("bob", "/home/bob", "", "/bin/sh").unwrap();
    assert_eq!(u.display_name, "bob");
    assert!(local_user_from("root", "/root", "root", "/bin/bash").is_none());
    assert!(local_user_from("x", "/homeless/x", "", "/bin/sh").is_none());
}

#[test]
fn env_map_insert_replaces() {
    let mut m = EnvMap::new();
    m.insert("A".to_string(), "1".to_string());
    m.insert("B".to_string(), "2".to_string());
    m.insert("A".to_string(), "3".to_string());
    assert_eq!(m.len(), 2);
    assert_eq!(m.get("A").as_deref(), Some("3"));
    assert_eq!(m.get("C"), None);
}

#[test]
fn override_tables() {
    let mut t = OverrideTable::new();
    assert!(t.is_empty());
    t.insert("a".to_string(), "b".to_string(), OverrideValue::Boolean(true));
    assert_eq!(t.len(), 1);
    let env = env_overrides(&[
        ("RULMEE_BEHAVIOR_SHOW_CONSOLE".to_string(), "true".to_string()),
        ("LIDM_BEHAVIOR_REFRESH_RATE".to_string(), "5".to_string()),
        ("HOME".to_string(), "/root".to_string()),
    ]);
    match env.get("behavior", "show_console") {
        Some(OverrideValue::Boolean(b)) => assert!(b),
        other => panic!("unexpected {:?}", other),
    }
}

#[test]
fn text_helpers() {
    assert_eq!(parse_u8("+255"), Some(255));
    assert_eq!(parse_u8("256"), None);
    assert_eq!(parse_u8(""), None);
    assert_eq!(parse_i64("-9223372036854775808"), Some(i64::MIN));
    assert_eq!(parse_i64("9223372036854775808"), None);
    assert_eq!(lines("a\nb\r\n"), vec!["a", "b"]);
    assert_eq!(join(&["a".to_string(), "b".to_string()], ";"), "a;b");
    assert!(contains_str("hello", "ll"));
    assert!(contains_str("hello", ""));
    assert!(!contains_str("he", "hello"));
    assert_eq!(decimal(0), "0");
    assert_eq!(decimal(1234567890123), "1234567890123");
    assert_eq!(i32_text(i32::MIN), "-2147483648");
}

#[test]
fn assignments_in_batches_match_one_batch() {
    let pairs = vec![
        ("A".to_string(), "1".to_string()),
        ("B".to_string(), "2".to_string()),
        ("A".to_string(), "3".to_string()),
    ];
    let mut one = EnvMap::new();
    one.insert_all(&pairs);
    let mut two = EnvMap::new();
    two.insert_all(&pairs[..1]);
    two.insert_all(&pairs[1..]);
    assert_eq!(one.get("A"), two.get("A"));
    assert_eq!(one.get("B"), two.get("B"));
    assert_eq!(one.len(), two.len());
    assert_eq!(one.get("A").as_deref(), Some("3"));
    let copy = one.duplicate();
    assert_eq!(copy.entries(), one.entries());
}

#[test]
fn test_capturing_conversation_records_messages() {
    let mut conv = CapturingConversation::with_credentials("testuser", "secret");
    conv.text_info("Welcome user");
    conv.error_msg("Password about to expire");

    assert_eq!(conv.messages.len(), 2);
    assert_eq!(conv.messages[0].msg_type, PamMessageType::Info);
    assert_eq!(conv.messages[0].message, "Welcome user");
    assert_eq!(conv.messages[1].msg_type, PamMessageType::Error);
    assert_eq!(conv.messages[1].message, "Password about to expire");
}
