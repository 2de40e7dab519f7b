use rulmee::config::Config;
use rulmee::session::{ExecType, Session, SessionType};
use rulmee::theme::Theme;
use rulmee::ui::{
    console_line_level, console_skip, inner_area, layout_heights, layout_rows, truncate_str, Area,
    ConsoleLevel, Field, HotkeyAction, KeyCodeKind, KeyPress, LoginRequest, UIContext, UIResult,
    CONSOLE_H, UI,
};
use crossterm::event::{Event, KeyCode, KeyEvent, KeyModifiers};
use rulmee::users::LocalUser;

fn user(name: &str, display: &str, shell: &str) -> LocalUser {
    LocalUser {
        username: name.to_string(),
        display_name: display.to_string(),
        shell: shell.to_string(),
    }
}

fn session(name: &str, t: SessionType) -> Session {
    Session {
        name: name.to_string(),
        exec_cmd: ExecType::Desktop(vec![name.to_lowercase()]),
        session_type: t,
        desktop_names: None,
    }
}

#[test]
fn test_truncate_str_cases() {
    assert_eq!(truncate_str("short", 10, "…"), "short");
    assert_eq!(truncate_str("verylonghostname", 8, "…"), "verylon…");
    assert_eq!(truncate_str("verylonghostname", 8, "..."), "veryl...");
    assert_eq!(truncate_str("hostname", 0, "…"), "");
    assert_eq!(truncate_str("hostname", 2, "..."), "..");
    assert_eq!(truncate_str("hostname", 1, "..."), ".");
}

#[test]
fn truncate_str_counts_wide_characters() {
    assert_eq!(truncate_str("日本語テキスト", 6, "…"), "日本…");
}

#[test]
fn ui_test_configured_session_type_strings() {
    let mut config = Config::default();
    config.strings.s_wayland = "Wayland Display".to_string();
    config.strings.s_xorg = "X11 Server".to_string();
    config.strings.s_shell = "Terminal Shell".to_string();

    let sessions = vec![
        Session {
            name: "Sway".into(),
            exec_cmd: ExecType::Desktop(vec!["sway".into()]),
            session_type: SessionType::Wayland,
            desktop_names: None,
        },
        Session {
            name: "i3".into(),
            exec_cmd: ExecType::Desktop(vec!["i3".into()]),
            session_type: SessionType::Xorg,
            desktop_names: None,
        },
        Session {
            name: "bash".into(),
            exec_cmd: ExecType::Shell("bash".into()),
            session_type: SessionType::Shell,
            desktop_names: None,
        },
    ];

    let mut ui = UI::new(UIContext { config, sessions, ..Default::default() });
    assert_eq!(ui.session_label(), "Wayland Display");
    ui.change_session(1);
    assert_eq!(ui.session_label(), "X11 Server");
    ui.change_session(1);
    assert_eq!(ui.session_label(), "Terminal Shell");
}

#[test]
fn ui_test_auth_error_styling_and_clearing() {
    let config = Config::default();
    let mut ui = UI::new(UIContext { config: config.clone(), auth_error: true, ..Default::default() });
    assert!(ui.auth_error);
    let bad = ui.field_value_style(Field::Password);
    assert_eq!(bad.color, config.colors.e_badpasswd.color);
    assert_eq!(bad.bg, config.colors.e_badpasswd.bg);
    assert_eq!(bad.modifiers, config.colors.e_badpasswd.modifiers);
    ui.auth_error = false;
    let good = ui.field_value_style(Field::Password);
    assert_eq!(good.color, config.colors.e_passwd.color);
    assert_eq!(good.modifiers, config.colors.e_passwd.modifiers);
}

#[test]
fn test_fido_hotkey_detection() {
    let mut config = Config::default();
    config.functions.fido = Some("F3".into());
    let ui = UI::new(UIContext { config, ..Default::default() });
    assert_eq!(ui.check_hotkey(KeyCodeKind::F(3)), Some(HotkeyAction::Fido));
    assert_eq!(ui.fido_login_request().password, "");
}

#[test]
fn test_login_request_constructors() {
    let req = LoginRequest::new(1, 2, "secret", "wayland", "alice");
    assert_eq!(req.session_idx, 1);
    assert_eq!(req.user_idx, 2);
    assert_eq!(req.password, "secret");
    assert_eq!(req.custom_session, "wayland");
    assert_eq!(req.custom_user, "alice");
}

#[test]
fn field_focus_moves_and_wraps() {
    assert_eq!(Field::default(), Field::User);
    assert_eq!(Field::Session.next(), Field::User);
    assert_eq!(Field::Password.next(), Field::Session);
    assert_eq!(Field::Session.prev(), Field::Password);
    for f in [Field::Session, Field::User, Field::Password] {
        assert_eq!(f.next().prev(), f);
        assert_eq!(f.next().next().next(), f);
    }
}

#[test]
fn hotkeys_follow_configuration_order() {
    let ui = UI::new(UIContext::default());
    assert_eq!(ui.check_hotkey(KeyCodeKind::F(1)), Some(HotkeyAction::Poweroff));
    assert_eq!(ui.check_hotkey(KeyCodeKind::F(2)), Some(HotkeyAction::Reboot));
    assert_eq!(ui.check_hotkey(KeyCodeKind::F(3)), Some(HotkeyAction::Theme));
    assert_eq!(ui.check_hotkey(KeyCodeKind::F(4)), None);
    assert_eq!(ui.check_hotkey(KeyCodeKind::Char('1')), None);
    let mut config = Config::default();
    config.functions.reboot = Some("F+7".into());
    config.functions.poweroff = Some("X1".into());
    let ui = UI::new(UIContext { config, ..Default::default() });
    assert_eq!(ui.check_hotkey(KeyCodeKind::F(1)), None);
    assert_eq!(ui.check_hotkey(KeyCodeKind::F(7)), Some(HotkeyAction::Reboot));
}

#[test]
fn initial_user_and_session_are_selected_or_typed() {
    let users = vec![user("alice", "Alice", "/bin/zsh"), user("bob", "Bob", "/bin/fish")];
    let sessions = vec![session("Sway", SessionType::Wayland), session("i3", SessionType::Xorg)];
    let ui = UI::new(UIContext {
        sessions: sessions.clone(),
        users: users.clone(),
        initial_user: Some("bob"),
        initial_session: Some("i3"),
        ..Default::default()
    });
    assert_eq!(ui.selected_user_idx, 1);
    assert_eq!(ui.selected_session_idx, 1);
    assert!(!ui.custom_user && !ui.custom_session);
    assert_eq!(ui.field_display_text(Field::User), "Bob");
    assert_eq!(ui.field_display_text(Field::Session), "i3");

    let ui = UI::new(UIContext {
        sessions: sessions.clone(),
        users: users.clone(),
        initial_user: Some("bob"),
        initial_session: Some("/bin/fish"),
        ..Default::default()
    });
    assert_eq!(ui.selected_session_idx, 2);
    assert!(!ui.custom_session);
    assert_eq!(ui.field_display_text(Field::Session), "/bin/fish");

    let ui = UI::new(UIContext {
        sessions,
        users,
        initial_user: Some("carol"),
        initial_session: Some("startxfce4"),
        ..Default::default()
    });
    assert!(ui.custom_user && ui.custom_session);
    assert_eq!(ui.selected_user_idx, 0);
    assert_eq!(ui.field_display_text(Field::User), "carol");
    assert_eq!(ui.field_display_text(Field::Session), "startxfce4");
    assert_eq!(ui.login_request().custom_user, "carol");
    assert_eq!(ui.login_request().custom_session, "startxfce4");
    assert_eq!(ui.cursor_offset(), 5);
}

#[test]
fn changing_user_wraps_both_ways() {
    let users = vec![user("a", "A", "/bin/sh"), user("b", "B", "/bin/sh"), user("c", "C", "/bin/sh")];
    let mut ui = UI::new(UIContext { users, ..Default::default() });
    ui.change_user(-1);
    assert_eq!(ui.selected_user_idx, 2);
    ui.change_user(1);
    assert_eq!(ui.selected_user_idx, 0);
    ui.change_user(1);
    assert_eq!(ui.selected_user_idx, 1);
}

#[test]
fn display_texts_without_choices() {
    let mut ui = UI::new(UIContext::default());
    assert_eq!(ui.field_display_text(Field::Session), "Shell");
    assert_eq!(ui.field_display_text(Field::User), "Unknown");
    assert_eq!(ui.field_display_text(Field::Password), "");
    assert!(ui.show_selector(Field::Session));
    assert!(!ui.show_selector(Field::User));
    assert!(!ui.show_selector(Field::Password));
    assert_eq!(ui.cursor_offset(), 0);
    ui.focused_field = Field::Session;
    assert_eq!(ui.cursor_offset(), 2);
    assert_eq!(ui.field_label(Field::Session), "shell");
    assert_eq!(ui.field_label(Field::User), "user");
    assert_eq!(ui.field_label(Field::Password), "password");
}

#[test]
fn theme_cycling_wraps_and_shows_path() {
    let config = Config::default();
    let mut ui = UI::new(UIContext { config: config.clone(), ..Default::default() });
    assert_eq!(ui.current_theme_name(), "");
    ui.cycle_theme();
    assert_eq!(ui.current_theme_idx, 0);
    ui.themes = vec![
        Theme::new("default", "default", config.colors.clone()),
        Theme::new("test_theme", "/etc/lidm/themes/test_theme.toml", config.colors.clone()),
    ];
    assert_eq!(ui.current_theme_display(), "default");
    ui.cycle_theme();
    assert_eq!(ui.current_theme_idx, 1);
    assert_eq!(ui.current_theme_display(), "test_theme (/etc/lidm/themes/test_theme.toml)");
    ui.cycle_theme();
    assert_eq!(ui.current_theme_idx, 0);
}

#[test]
fn hotkey_hints_list_keys_with_labels() {
    let ui = UI::new(UIContext::default());
    let hints = ui.hotkey_hints();
    assert_eq!(
        hints,
        vec![
            ("poweroff".to_string(), "F1".to_string()),
            ("reboot".to_string(), "F2".to_string()),
            ("theme".to_string(), "F3".to_string()),
        ]
    );
}

#[test]
fn console_panel_helpers() {
    assert_eq!(console_line_level("ERROR: auth failure"), ConsoleLevel::Error);
    assert_eq!(console_line_level("WARN: low memory"), ConsoleLevel::Warn);
    assert_eq!(console_line_level("INFO: ok ERROR later"), ConsoleLevel::Error);
    assert_eq!(console_line_level("INFO: system initialized"), ConsoleLevel::Info);
    assert_eq!(console_line_level("DEBUG x"), ConsoleLevel::Debug);
    assert_eq!(console_line_level("plain"), ConsoleLevel::Plain);
    assert_eq!(console_skip(10, CONSOLE_H), 4);
    assert_eq!(console_skip(3, CONSOLE_H), 0);
    assert_eq!(console_skip(3, 1), 3);
    assert_eq!(layout_heights(false, false), (12, 12));
    assert_eq!(layout_heights(true, true), (14, 23));
    assert_eq!(layout_rows(true), vec![3, 2, 2, 3, 2]);
    assert_eq!(layout_rows(false), vec![3, 2, 2, 3]);
}

#[test]
fn session_steps_undo_each_other() {
    let sessions = vec![session("Sway", SessionType::Wayland), session("i3", SessionType::Xorg)];
    let mut ui = UI::new(UIContext { sessions, ..Default::default() });
    for start in 0..3 {
        ui.selected_session_idx = start;
        ui.change_session(1);
        ui.change_session(-1);
        assert_eq!(ui.selected_session_idx, start);
        ui.change_session(-1);
        ui.change_session(1);
        assert_eq!(ui.selected_session_idx, start);
    }
    ui.selected_session_idx = 2;
    assert_eq!(ui.field_display_text(Field::Session), "Shell");
    ui.change_session(1);
    assert_eq!(ui.selected_session_idx, 0);
}

#[test]
fn layout_places_box_rows_and_console_panel() {
    let area = Area { x: 0, y: 0, width: 80, height: 25 };
    let (login, rows, console) = UI::layout(area, true, false);
    let cr = console.unwrap();
    assert_eq!(cr.height, CONSOLE_H);
    assert_eq!(login.width, 60);
    assert_eq!(login.x, 10);
    assert_eq!(rows.len(), 4);
    assert_eq!(rows[0].height, 3);
    assert_eq!(rows[0].x, login.x + 2);
    let (_, rows, console) = UI::layout(area, false, true);
    assert!(console.is_none());
    assert_eq!(rows.len(), 5);
    assert_eq!(inner_area(Area { x: 1, y: 1, width: 3, height: 10 }, 2, 1), Area { x: 0, y: 0, width: 0, height: 0 });
    assert_eq!(inner_area(Area { x: 1, y: 1, width: 10, height: 10 }, 2, 1), Area { x: 3, y: 2, width: 6, height: 8 });
}

fn press(code: KeyCodeKind, shift: bool, control: bool) -> KeyPress {
    KeyPress { code, shift, control, alt: false, other_modifiers: false, pressed: true }
}

fn event_for(code: KeyCode, mods: KeyModifiers) -> Event {
    Event::Key(KeyEvent::new(code, mods))
}

#[test]
fn typed_characters_go_into_the_focused_field() {
    let mut ui = UI::new(UIContext::default());
    ui.focused_field = Field::Password;
    for c in ['s', 'E'] {
        let shift = c.is_uppercase();
        let mods = if shift { KeyModifiers::SHIFT } else { KeyModifiers::NONE };
        assert!(ui.handle_key_event(press(KeyCodeKind::Char(c), shift, false), &event_for(KeyCode::Char(c), mods)).is_none());
    }
    assert_eq!(ui.login_request().password, "sE");
    assert_eq!(ui.field_display_text(Field::Password), "**");
    ui.handle_key_event(press(KeyCodeKind::Backspace, false, false), &event_for(KeyCode::Backspace, KeyModifiers::NONE));
    assert_eq!(ui.login_request().password, "s");

    ui.focused_field = Field::User;
    ui.handle_key_event(press(KeyCodeKind::Char('b'), false, false), &event_for(KeyCode::Char('b'), KeyModifiers::NONE));
    assert!(ui.custom_user);
    assert_eq!(ui.login_request().custom_user, "b");
    assert_eq!(ui.cursor_offset(), 1);
}

#[test]
fn tab_and_shift_tab_move_focus() {
    let mut ui = UI::new(UIContext::default());
    assert_eq!(ui.focused_field, Field::User);
    assert!(ui.handle_key_event(press(KeyCodeKind::Tab, false, false), &event_for(KeyCode::Tab, KeyModifiers::NONE)).is_none());
    assert_eq!(ui.focused_field, Field::Password);
    ui.handle_key_event(press(KeyCodeKind::BackTab, true, false), &event_for(KeyCode::BackTab, KeyModifiers::SHIFT));
    ui.handle_key_event(press(KeyCodeKind::BackTab, true, false), &event_for(KeyCode::BackTab, KeyModifiers::SHIFT));
    assert_eq!(ui.focused_field, Field::Session);
    assert!(!ui.custom_session);
    match ui.handle_key_event(press(KeyCodeKind::Char('c'), false, true), &event_for(KeyCode::Char('c'), KeyModifiers::CONTROL)) {
        Some(UIResult::Exit) => {}
        other => panic!("unexpected {:?}", other),
    }
}
