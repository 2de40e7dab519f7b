use rulmee::auth::AuthError;
use rulmee::login::{login_step, resolve_session, resolve_user, session_type_name, LoginEvent, LoginStep};
use rulmee::session::{ExecType, Session, SessionType};
use rulmee::users::LocalUser;

#[test]
fn test_resolve_user_indexed() {
    let users = vec![
        LocalUser {
            username: "alice".to_string(),
            display_name: "Alice".to_string(),
            shell: "/bin/zsh".to_string(),
        },
        LocalUser {
            username: "bob".to_string(),
            display_name: "Bob".to_string(),
            shell: "/bin/fish".to_string(),
        },
    ];
    let sel = resolve_user(&users, 1, "".to_string());
    assert_eq!(sel.username, "bob");
    assert_eq!(sel.shell, "/bin/fish");
}

#[test]
fn test_resolve_user_custom() {
    let users = vec![LocalUser {
        username: "alice".to_string(),
        display_name: "Alice".to_string(),
        shell: "/bin/zsh".to_string(),
    }];
    let sel = resolve_user(&users, 0, "custom_user".to_string());
    assert_eq!(sel.username, "custom_user");
    assert_eq!(sel.shell, "/bin/bash");
}

#[test]
fn test_resolve_user_out_of_bounds() {
    let users = vec![];
    let sel = resolve_user(&users, 5, "".to_string());
    assert_eq!(sel.username, "");
    assert_eq!(sel.shell, "/bin/bash");
}

#[test]
fn test_resolve_session_indexed_shell() {
    let sessions = vec![Session {
        name: "Bash".to_string(),
        exec_cmd: ExecType::Shell("/bin/bash".to_string()),
        session_type: SessionType::Wayland,
        desktop_names: None,
    }];
    let sel = resolve_session(&sessions, 0, "".to_string(), "/bin/bash");
    assert_eq!(sel.name, "Bash");
    assert_eq!(sel.exec_args, vec!["/bin/bash"]);
    assert!(!sel.is_xorg);
    assert_eq!(sel.desktop_names, None);
}

#[test]
fn test_resolve_session_indexed_desktop_xorg() {
    let sessions = vec![Session {
        name: "i3".to_string(),
        exec_cmd: ExecType::Desktop(vec!["i3".to_string()]),
        session_type: SessionType::Xorg,
        desktop_names: Some("i3".to_string()),
    }];
    let sel = resolve_session(&sessions, 0, "".to_string(), "/bin/bash");
    assert_eq!(sel.name, "i3");
    assert_eq!(sel.exec_args, vec!["i3"]);
    assert!(sel.is_xorg);
    assert_eq!(sel.desktop_names, Some("i3".to_string()));
}

#[test]
fn test_resolve_session_default_shell_option() {
    let sessions = vec![Session {
        name: "i3".to_string(),
        exec_cmd: ExecType::Desktop(vec!["i3".to_string()]),
        session_type: SessionType::Xorg,
        desktop_names: None,
    }];
    let sel = resolve_session(&sessions, 1, "".to_string(), "/bin/zsh");
    assert_eq!(sel.name, "/bin/zsh");
    assert_eq!(sel.exec_args, vec!["/bin/zsh"]);
    assert!(!sel.is_xorg);
    assert_eq!(sel.desktop_names, None);
}

#[test]
fn test_resolve_session_custom() {
    let sessions = vec![];
    let sel = resolve_session(&sessions, 0, "startxfce4".to_string(), "/bin/bash");
    assert_eq!(sel.name, "startxfce4");
    assert_eq!(sel.exec_args, vec!["startxfce4"]);
    assert!(!sel.is_xorg);
    assert_eq!(sel.desktop_names, None);
}

#[test]
fn session_type_names() {
    assert_eq!(session_type_name(true), "x11");
    assert_eq!(session_type_name(false), "wayland");
}

#[test]
fn login_steps_follow_the_outcomes() {
    assert!(matches!(login_step("alice", LoginEvent::Start), LoginStep::Authenticate));
    assert!(matches!(login_step("alice", LoginEvent::Authenticated(Ok(()))), LoginStep::LookUpUser));
    let refused = AuthError { message: "Authentication failed".to_string(), pam_messages: vec![] };
    match login_step("alice", LoginEvent::Authenticated(Err(refused))) {
        LoginStep::Finish(Err(e)) => assert_eq!(e.message, "Authentication failed"),
        other => panic!("unexpected step {:?}", other),
    }
    assert!(matches!(login_step("alice", LoginEvent::UserLookedUp(true)), LoginStep::Launch));
    match login_step("alice", LoginEvent::UserLookedUp(false)) {
        LoginStep::Close(Some(m)) => assert_eq!(m, "User not found in system: alice"),
        other => panic!("unexpected step {:?}", other),
    }
    match login_step("alice", LoginEvent::LaunchDone(Err("no such file".to_string()))) {
        LoginStep::Close(Some(m)) => assert_eq!(m, "Failed to launch session: no such file"),
        other => panic!("unexpected step {:?}", other),
    }
    assert!(matches!(login_step("alice", LoginEvent::LaunchDone(Ok(()))), LoginStep::Close(None)));
    assert!(matches!(login_step("alice", LoginEvent::Closed), LoginStep::Finish(Ok(()))));
}
