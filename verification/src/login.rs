//! What a login request selects: the user and the session to start.
use vstd::prelude::*;

use crate::auth::AuthError;
use crate::session::{ExecType, Session, SessionType};
use crate::users::LocalUser;
use crate::text;

verus! {

/// The command-line subcommands.
#[derive(Debug, Clone)]
pub enum Commands {
    /// Copy the default configuration to a file.
    CopyConfig { dest: Option<String> },
}

#[derive(Debug, Clone)]
pub struct UserSelection {
    pub username: String,
    pub shell: String,
}

#[derive(Debug, Clone)]
pub struct SessionSelection {
    pub name: String,
    pub exec_args: Vec<String>,
    pub is_xorg: bool,
    pub desktop_names: Option<String>,
}

/// The user of a request: the listed user at `user_idx`, unless a custom
/// user name was typed or the index is out of range; then the typed name
/// with `/bin/bash`.
pub fn resolve_user(users: &[LocalUser], user_idx: usize, custom_user: String) -> (r: UserSelection)
    ensures
        user_idx < users@.len() && custom_user@.len() == 0 ==> r.username@
            == users@[user_idx as int].username@ && r.shell@ == users@[user_idx as int].shell@,
        !(user_idx < users@.len() && custom_user@.len() == 0) ==> r.username@ == custom_user@
            && r.shell@ == "/bin/bash"@,
{
    if user_idx < users.len() && custom_user.as_str().unicode_len() == 0 {
        UserSelection {
            username: users[user_idx].username.clone(),
            shell: users[user_idx].shell.clone(),
        }
    } else {
        UserSelection { username: custom_user, shell: text::str_to_string("/bin/bash") }
    }
}

pub open spec fn exec_args_view(e: ExecType) -> Seq<Seq<char>> {
    match e {
        ExecType::Shell(sh) => seq![sh@],
        ExecType::Desktop(args) => args.deep_view(),
    }
}

/// The session of a request: the listed session at `session_idx`; the
/// user's shell at the index one past the list; a typed custom command
/// when one was typed (or the index is further out).
pub fn resolve_session(
    sessions: &[Session],
    session_idx: usize,
    custom_session: String,
    shell: &str,
) -> (r: SessionSelection)
    ensures
        session_idx < sessions@.len() && custom_session@.len() == 0 ==> {
            let s = sessions@[session_idx as int];
            &&& r.name@ == s.name@
            &&& r.exec_args.deep_view() == exec_args_view(s.exec_cmd)
            &&& r.is_xorg == (s.session_type == SessionType::Xorg)
            &&& crate::colors::opt_string_view(r.desktop_names) == crate::colors::opt_string_view(
                s.desktop_names,
            )
        },
        session_idx == sessions@.len() && custom_session@.len() == 0 ==> {
            &&& r.name@ == shell@
            &&& r.exec_args.deep_view() == seq![shell@]
            &&& !r.is_xorg
            &&& r.desktop_names is None
        },
        custom_session@.len() > 0 || session_idx > sessions@.len() ==> {
            &&& r.name@ == custom_session@
            &&& r.exec_args.deep_view() == seq![custom_session@]
            &&& !r.is_xorg
            &&& r.desktop_names is None
        },
{
    let custom_empty = custom_session.as_str().unicode_len() == 0;
    if session_idx < sessions.len() && custom_empty {
        let s = &sessions[session_idx];
        let args = match &s.exec_cmd {
            ExecType::Shell(sh) => {
                let mut v: Vec<String> = Vec::new();
                v.push(sh.clone());
                assert(v.deep_view() =~= seq![sh@]);
                v
            },
            ExecType::Desktop(args) => crate::colors::clone_strings(args),
        };
        SessionSelection {
            name: s.name.clone(),
            exec_args: args,
            is_xorg: s.session_type == SessionType::Xorg,
            desktop_names: crate::colors::clone_opt_string(&s.desktop_names),
        }
    } else if session_idx == sessions.len() && custom_empty {
        let mut v: Vec<String> = Vec::new();
        v.push(text::str_to_string(shell));
        assert(v.deep_view() =~= seq![shell@]);
        SessionSelection {
            name: text::str_to_string(shell),
            exec_args: v,
            is_xorg: false,
            desktop_names: None,
        }
    } else {
        let mut v: Vec<String> = Vec::new();
        v.push(custom_session.clone());
        assert(v.deep_view() =~= seq![custom_session@]);
        SessionSelection { name: custom_session, exec_args: v, is_xorg: false, desktop_names: None }
    }
}

/// The value of `XDG_SESSION_TYPE` for a session.
pub fn session_type_name(is_xorg: bool) -> (r: &'static str)
    ensures
        r@ == if is_xorg {
            "x11"@
        } else {
            "wayland"@
        },
{
    if is_xorg {
        "x11"
    } else {
        "wayland"
    }
}

/// What has just happened while a login request is carried out.
#[derive(Debug)]
pub enum LoginEvent {
    /// The request was made.
    Start,
    /// PAM answered: the session was opened, or why not.
    Authenticated(Result<(), AuthError>),
    /// The system's user database was asked for the user: found or not.
    UserLookedUp(bool),
    /// The session was started, or the error it failed with, as text.
    LaunchDone(Result<(), String>),
    /// The PAM session was ended.
    Closed,
}

/// What to do next for a login request.
#[derive(Debug)]
pub enum LoginStep {
    /// Authenticate the user with PAM.
    Authenticate,
    /// Look the user up in the system's user database.
    LookUpUser,
    /// Start the selected session as the user.
    Launch,
    /// Write the line, if any, to standard error and end the PAM session.
    Close(Option<String>),
    /// The request is over, with this result.
    Finish(Result<(), AuthError>),
}

/// The next step of a login request for `username` after `event`.
///
/// A refused authentication ends the request with its error, before any
/// session exists. Once authenticated, a user missing from the system, or a
/// session that fails to start, is reported and the request still ends
/// well; the PAM session is closed on every path that opened it.
pub fn login_step(username: &str, event: LoginEvent) -> (r: LoginStep)
    ensures
        (match event {
            LoginEvent::Start => r is Authenticate,
            LoginEvent::Authenticated(Ok(())) => r is LookUpUser,
            LoginEvent::Authenticated(Err(e)) => r == LoginStep::Finish(Err(e)),
            LoginEvent::UserLookedUp(found) => if found {
                r is Launch
            } else {
                r matches LoginStep::Close(Some(m)) && m@ == "User not found in system: "@ + username@
            },
            LoginEvent::LaunchDone(Ok(())) => r == LoginStep::Close(None),
            LoginEvent::LaunchDone(Err(e)) => r matches LoginStep::Close(Some(m)) && m@
                == "Failed to launch session: "@ + e@,
            LoginEvent::Closed => r == LoginStep::Finish(Ok(())),
        }),
{
    match event {
        LoginEvent::Start => LoginStep::Authenticate,
        LoginEvent::Authenticated(Ok(())) => LoginStep::LookUpUser,
        LoginEvent::Authenticated(Err(e)) => LoginStep::Finish(Err(e)),
        LoginEvent::UserLookedUp(found) => {
            if found {
                LoginStep::Launch
            } else {
                let mut m = String::new();
                text::push_str(&mut m, "User not found in system: ");
                text::push_str(&mut m, username);
                LoginStep::Close(Some(m))
            }
        },
        LoginEvent::LaunchDone(Ok(())) => LoginStep::Close(None),
        LoginEvent::LaunchDone(Err(e)) => {
            let mut m = String::new();
            text::push_str(&mut m, "Failed to launch session: ");
            text::push_str(&mut m, e.as_str());
            LoginStep::Close(Some(m))
        },
        LoginEvent::Closed => LoginStep::Finish(Ok(())),
    }
}

} // verus!
