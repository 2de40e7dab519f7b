use rulmee::env_map::EnvMap;
use rulmee::exec::{
    assemble_environment, build_exec_command, child_to_stop, display_value, launch_mode,
    parse_env_content, parse_env_line, path_join, shell_quote, source_environment_files,
    source_paths, xorg_args, EnvironmentOptions, LaunchMode,
};

fn s(x: &str) -> String {
    x.to_string()
}

#[test]
fn test_assemble_environment_merging() {
    let mut pam_env = EnvMap::new();
    pam_env.insert(s("PAM_VAR"), s("pam_val"));
    pam_env.insert(s("PATH"), s("/custom/path"));

    let opts = EnvironmentOptions {
        pam_env: &pam_env,
        username: "alice",
        home_dir: "/home/alice",
        shell: "/bin/zsh",
        session_type: "wayland",
        display: None,
        desktop_names: None,
        system_sources: &[],
        user_sources: &[],
    };
    let env = assemble_environment(&opts, &[]);

    assert_eq!(env.get("USER").as_deref(), Some("alice"));
    assert_eq!(env.get("LOGNAME").as_deref(), Some("alice"));
    assert_eq!(env.get("HOME").as_deref(), Some("/home/alice"));
    assert_eq!(env.get("SHELL").as_deref(), Some("/bin/zsh"));
    assert_eq!(env.get("XDG_SESSION_TYPE").as_deref(), Some("wayland"));
    assert_eq!(env.get("XDG_SESSION_CLASS").as_deref(), Some("user"));
    assert_eq!(env.get("PAM_VAR").as_deref(), Some("pam_val"));
    assert_eq!(env.get("PATH").as_deref(), Some("/custom/path"));
    assert_eq!(env.get("XDG_CURRENT_DESKTOP"), None);
}

#[test]
fn test_assemble_environment_xdg_current_desktop() {
    let pam_env = EnvMap::new();
    let opts = EnvironmentOptions {
        pam_env: &pam_env,
        username: "bob",
        home_dir: "/home/bob",
        shell: "/bin/bash",
        session_type: "wayland",
        display: None,
        desktop_names: Some("Sway:Wayland"),
        system_sources: &[],
        user_sources: &[],
    };
    let env = assemble_environment(&opts, &[]);
    assert_eq!(env.get("XDG_CURRENT_DESKTOP").as_deref(), Some("Sway:Wayland"));
}

#[test]
fn test_build_exec_command_bypass_login_false() {
    let exec_args = vec![s("sway"), s("--unsupported-gpu")];
    let (prog, args) = build_exec_command(&exec_args, "/bin/bash", false);

    assert_eq!(prog, "/bin/bash");
    assert_eq!(args, vec!["-l", "-c", "exec 'sway' '--unsupported-gpu'"]);
}

#[test]
fn test_build_exec_command_bypass_login_true() {
    let exec_args = vec![s("sway"), s("--unsupported-gpu")];
    let (prog, args) = build_exec_command(&exec_args, "/bin/bash", true);

    assert_eq!(prog, "sway");
    assert_eq!(args, vec!["--unsupported-gpu"]);
}

#[test]
fn test_shell_quote() {
    assert_eq!(shell_quote("sway"), "'sway'");
    assert_eq!(shell_quote("my config.conf"), "'my config.conf'");
    assert_eq!(shell_quote("don't stop"), "'don'\\''t stop'");
}

#[test]
fn test_build_exec_command_quoting_and_empty_shell() {
    let exec_args = vec![s("sway"), s("--config"), s("my config.conf")];
    let (prog, args) = build_exec_command(&exec_args, "", false);

    assert_eq!(prog, "/bin/bash");
    assert_eq!(args, vec!["-l", "-c", "exec 'sway' '--config' 'my config.conf'"]);
}

#[test]
fn build_exec_command_without_arguments_starts_login_shell() {
    let (prog, args) = build_exec_command(&[], "/bin/zsh", false);
    assert_eq!(prog, "/bin/zsh");
    assert_eq!(args, vec!["-l"]);
}

#[test]
fn env_file_lines_are_parsed_like_shell_assignments() {
    let content = "\n# Comment line\nFOO=bar\nexport BAR=\"quoted value\"\nexport  BAZ='single quoted'\n  SPACED = trimmed  \nINVALID_LINE_NO_EQUALS\n";
    let pairs = parse_env_content(content);
    assert_eq!(
        pairs,
        vec![
            (s("FOO"), s("bar")),
            (s("BAR"), s("quoted value")),
            (s("BAZ"), s("single quoted")),
            (s("SPACED"), s("trimmed")),
        ]
    );
    assert_eq!(parse_env_line("# x=y"), None);
    assert_eq!(parse_env_line("=value"), None);
    assert_eq!(parse_env_line("export\tK=\"v\""), Some((s("K"), s("v"))));
}

#[test]
fn sourced_files_apply_in_order_later_wins() {
    let mut env = EnvMap::new();
    source_environment_files(
        &mut env,
        &[s("SYS_VAR=system\nOVERRIDE_VAR=system_val\n"), s("USER_VAR=user\nOVERRIDE_VAR=user_val\n")],
    );
    assert_eq!(env.get("SYS_VAR").as_deref(), Some("system"));
    assert_eq!(env.get("USER_VAR").as_deref(), Some("user"));
    assert_eq!(env.get("OVERRIDE_VAR").as_deref(), Some("user_val"));
    assert_eq!(env.len(), 3);
}

#[test]
fn source_paths_joins_user_files_to_home() {
    let paths = source_paths(&[s("/etc/profile")], "/home/alice", &[s(".xprofile"), s("/abs/file")]);
    assert_eq!(paths, vec!["/etc/profile", "/home/alice/.xprofile", "/abs/file"]);
    assert_eq!(path_join("/home/alice/", "x"), "/home/alice/x");
}

#[test]
fn assembled_environment_layers_sources_and_display() {
    let mut pam_env = EnvMap::new();
    pam_env.insert(s("A"), s("pam"));
    let opts = EnvironmentOptions {
        pam_env: &pam_env,
        username: "carol",
        home_dir: "/home/carol",
        shell: "/bin/sh",
        session_type: "x11",
        display: Some(":1"),
        desktop_names: None,
        system_sources: &[],
        user_sources: &[],
    };
    let env = assemble_environment(&opts, &[s("A=file\nDISPLAY=:9\n")]);
    assert_eq!(env.get("A").as_deref(), Some("file"));
    assert_eq!(env.get("DISPLAY").as_deref(), Some(":1"));
    assert_eq!(env.get("PATH").as_deref(), Some("/usr/local/sbin:/usr/local/bin:/usr/sbin:/usr/bin:/sbin:/bin"));
}

#[test]
fn launch_mode_needs_vt_for_xorg() {
    assert_eq!(launch_mode(false, None), Ok(LaunchMode::Direct));
    assert_eq!(launch_mode(true, Some(7)), Ok(LaunchMode::Xorg { vt: 7 }));
    assert_eq!(
        launch_mode(true, None),
        Err(s("Xorg requires a VT number (none provided)"))
    );
}

#[test]
fn xorg_arguments_and_display() {
    assert_eq!(xorg_args(5, 7), vec!["-displayfd", "5", "vt7"]);
    assert_eq!(xorg_args(-12, 10), vec!["-displayfd", "-12", "vt10"]);
    assert_eq!(display_value(" 0\n"), ":0");
}

#[test]
fn child_to_stop_picks_the_other_process() {
    assert_eq!(child_to_stop(10, 10, 20), Some(20));
    assert_eq!(child_to_stop(20, 10, 20), Some(10));
    assert_eq!(child_to_stop(30, 10, 20), None);
}
