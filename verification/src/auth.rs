//! PAM messages, the conversation that answers PAM, and the order of the
//! PAM calls of a login.
use vstd::prelude::*;

use crate::text;

verus! {

#[derive(Debug, Clone, Copy, PartialEq, Eq, Structural)]
pub enum PamMessageType {
    Info,
    Error,
}

#[derive(Debug, Clone)]
pub struct PamMessage {
    pub msg_type: PamMessageType,
    pub message: String,
}

#[derive(Debug, Clone)]
pub struct AuthError {
    pub message: String,
    pub pam_messages: Vec<PamMessage>,
}

pub open spec fn message_view(m: PamMessage) -> (PamMessageType, Seq<char>) {
    (m.msg_type, m.message@)
}

pub open spec fn messages_view(ms: Seq<PamMessage>) -> Seq<(PamMessageType, Seq<char>)> {
    ms.map_values(|m: PamMessage| message_view(m))
}

pub fn clone_messages(ms: &[PamMessage]) -> (r: Vec<PamMessage>)
    ensures
        messages_view(r@) == messages_view(ms@),
{
    let mut r: Vec<PamMessage> = Vec::new();
    let mut i: usize = 0;
    while i < ms.len()
        invariant
            i <= ms@.len(),
            messages_view(r@) == messages_view(ms@).take(i as int),
        decreases ms@.len() - i,
    {
        let m = PamMessage { msg_type: ms[i].msg_type, message: ms[i].message.clone() };
        let ghost before = r@;
        r.push(m);
        assert(messages_view(r@) =~= messages_view(before).push(message_view(ms@[i as int])));
        assert(messages_view(ms@).take(i + 1) =~= messages_view(ms@).take(i as int).push(
            message_view(ms@[i as int]),
        ));
        i = i + 1;
    }
    assert(messages_view(ms@).take(ms@.len() as int) =~= messages_view(ms@));
    r
}

impl AuthError {
    /// The text shown for the error.
    pub fn to_string(&self) -> (r: String)
        ensures
            r@ == self.message@,
    {
        self.message.clone()
    }
}

/// The conversation with PAM: it answers prompts with the credentials it
/// holds and records the informational and error messages PAM sends.
pub struct CapturingConversation {
    pub username: String,
    pub password: String,
    pub messages: Vec<PamMessage>,
}

impl CapturingConversation {
    pub fn with_credentials(username: &str, password: &str) -> (r: Self)
        ensures
            r.username@ == username@,
            r.password@ == password@,
            r.messages@.len() == 0,
    {
        Self {
            username: text::str_to_string(username),
            password: text::str_to_string(password),
            messages: Vec::new(),
        }
    }

    /// PAM starts the conversation with a default user; it is taken only
    /// when no user name is held.
    pub fn init(&mut self, default_user: Option<&str>)
        ensures
            final(self).username@ == match default_user {
                Some(u) => if old(self).username@.len() == 0 {
                    u@
                } else {
                    old(self).username@
                },
                None => old(self).username@,
            },
            final(self).password@ == old(self).password@,
            messages_view(final(self).messages@) == messages_view(old(self).messages@),
    {
        if let Some(user) = default_user {
            if self.username.as_str().unicode_len() == 0 {
                self.username = text::str_to_string(user);
            }
        }
    }

    /// The answer to a prompt that echoes: the user name.
    pub fn prompt_echo_on(&self) -> (r: String)
        ensures
            r@ == self.username@,
    {
        self.username.clone()
    }

    /// The answer to a prompt that does not echo: the password.
    pub fn prompt_echo_off(&self) -> (r: String)
        ensures
            r@ == self.password@,
    {
        self.password.clone()
    }

    /// Records an informational message.
    pub fn text_info(&mut self, msg: &str)
        ensures
            messages_view(final(self).messages@) == messages_view(old(self).messages@).push(
                (PamMessageType::Info, msg@),
            ),
            final(self).username@ == old(self).username@,
            final(self).password@ == old(self).password@,
    {
        let ghost before = self.messages@;
        self.messages.push(PamMessage { msg_type: PamMessageType::Info, message: text::str_to_string(msg) });
        assert(messages_view(self.messages@) =~= messages_view(before).push(
            (PamMessageType::Info, msg@),
        ));
    }

    /// Records an error message.
    pub fn error_msg(&mut self, msg: &str)
        ensures
            messages_view(final(self).messages@) == messages_view(old(self).messages@).push(
                (PamMessageType::Error, msg@),
            ),
            final(self).username@ == old(self).username@,
            final(self).password@ == old(self).password@,
    {
        let ghost before = self.messages@;
        self.messages.push(PamMessage { msg_type: PamMessageType::Error, message: text::str_to_string(msg) });
        assert(messages_view(self.messages@) =~= messages_view(before).push(
            (PamMessageType::Error, msg@),
        ));
    }
}

/// The PAM calls of a login, in the order they are made: `pam_start`,
/// `pam_authenticate`, `pam_acct_mgmt`, then the session, whose opening
/// establishes the credentials (`pam_setcred`) before `pam_open_session`,
/// and finally the credentials are reinitialised for the open session.
#[derive(Debug, Clone, Copy, PartialEq, Eq, Structural)]
pub enum AuthStage {
    /// `pam_start`
    Start,
    /// `pam_authenticate`
    Authenticate,
    /// `pam_acct_mgmt`
    AccountCheck,
    /// `pam_setcred` with `PAM_ESTABLISH_CRED`, then `pam_open_session`
    OpenSession,
    /// `pam_setcred` with `PAM_REINITIALIZE_CRED` on the open session
    ReinitializeCredentials,
}

/// The call after a successful one; `None` after the last.
pub open spec fn stage_after(s: AuthStage) -> Option<AuthStage> {
    match s {
        AuthStage::Start => Some(AuthStage::Authenticate),
        AuthStage::Authenticate => Some(AuthStage::AccountCheck),
        AuthStage::AccountCheck => Some(AuthStage::OpenSession),
        AuthStage::OpenSession => Some(AuthStage::ReinitializeCredentials),
        AuthStage::ReinitializeCredentials => None,
    }
}

/// The calls of a login that succeeds, in order.
pub open spec fn auth_order() -> Seq<AuthStage> {
    seq![
        AuthStage::Start,
        AuthStage::Authenticate,
        AuthStage::AccountCheck,
        AuthStage::OpenSession,
        AuthStage::ReinitializeCredentials,
    ]
}

/// Following the successful calls from `pam_start` visits the calls of
/// `auth_order` one after the other and then ends.
pub proof fn law_auth_order()
    ensures
        forall|i: int|
            0 <= i < auth_order().len() - 1 ==> stage_after(#[trigger] auth_order()[i]) == Some(
                auth_order()[i + 1],
            ),
        stage_after(auth_order().last()) is None,
        auth_order()[0] == AuthStage::Start,
{
}

/// What a login does after a PAM call.
#[derive(Debug)]
pub enum AuthStep {
    /// Make this call next.
    Call(AuthStage),
    /// Every call succeeded.
    Done,
    /// A call failed; the login ends with this error.
    Failed(AuthError),
}

/// How a failing call is reported.
pub open spec fn stage_label(s: AuthStage) -> Seq<char> {
    match s {
        AuthStage::Start => "pam_start failed: "@,
        AuthStage::Authenticate => "pam_authenticate failed: "@,
        AuthStage::AccountCheck => "pam_acct_mgmt failed: "@,
        AuthStage::OpenSession => "pam_open_session failed: "@,
        AuthStage::ReinitializeCredentials => "pam_setcred(REINITIALIZE) failed: "@,
    }
}

/// The error for a failed PAM call: the call and PAM's reason, with the
/// messages PAM sent so far (none when the context could not be started).
pub fn auth_failure(stage: AuthStage, reason: &str, messages: &[PamMessage]) -> (r: AuthError)
    ensures
        r.message@ == stage_label(stage) + reason@,
        messages_view(r.pam_messages@) == if stage == AuthStage::Start {
            Seq::empty()
        } else {
            messages_view(messages@)
        },
{
    let label = match stage {
        AuthStage::Start => "pam_start failed: ",
        AuthStage::Authenticate => "pam_authenticate failed: ",
        AuthStage::AccountCheck => "pam_acct_mgmt failed: ",
        AuthStage::OpenSession => "pam_open_session failed: ",
        AuthStage::ReinitializeCredentials => "pam_setcred(REINITIALIZE) failed: ",
    };
    let mut message = text::str_to_string(label);
    text::push_str(&mut message, reason);
    let pam_messages = match stage {
        AuthStage::Start => {
            let v: Vec<PamMessage> = Vec::new();
            assert(messages_view(v@) =~= Seq::<(PamMessageType, Seq<char>)>::empty());
            v
        },
        _ => clone_messages(messages),
    };
    AuthError { message, pam_messages }
}

/// The messages shown after a failed login: PAM's own, or, when PAM sent
/// none, the error itself as an error message.
pub fn messages_after_failure(err: &AuthError) -> (r: Vec<PamMessage>)
    ensures
        messages_view(r@) == if err.pam_messages@.len() == 0 {
            seq![(PamMessageType::Error, err.message@)]
        } else {
            messages_view(err.pam_messages@)
        },
{
    if err.pam_messages.len() == 0 {
        let mut v: Vec<PamMessage> = Vec::new();
        v.push(PamMessage { msg_type: PamMessageType::Error, message: err.message.clone() });
        assert(messages_view(v@) =~= seq![(PamMessageType::Error, err.message@)]);
        v
    } else {
        clone_messages(err.pam_messages.as_slice())
    }
}

/// The step after `stage` ended with `outcome`: the next call in order, or
/// `Done` after the last; on failure the error that `auth_failure` makes of
/// the reason and the messages PAM sent.
pub fn auth_step(stage: AuthStage, outcome: Result<(), String>, messages: &[PamMessage]) -> (r:
    AuthStep)
    ensures
        match outcome {
            Ok(()) => match stage_after(stage) {
                Some(next) => r == AuthStep::Call(next),
                None => r is Done,
            },
            Err(reason) => {
                &&& r matches AuthStep::Failed(e)
                &&& e.message@ == stage_label(stage) + reason@
                &&& messages_view(e.pam_messages@) == if stage == AuthStage::Start {
                    Seq::empty()
                } else {
                    messages_view(messages@)
                }
            },
        },
{
    match outcome {
        Ok(()) => match stage {
            AuthStage::Start => AuthStep::Call(AuthStage::Authenticate),
            AuthStage::Authenticate => AuthStep::Call(AuthStage::AccountCheck),
            AuthStage::AccountCheck => AuthStep::Call(AuthStage::OpenSession),
            AuthStage::OpenSession => AuthStep::Call(AuthStage::ReinitializeCredentials),
            AuthStage::ReinitializeCredentials => AuthStep::Done,
        },
        Err(reason) => AuthStep::Failed(auth_failure(stage, reason.as_str(), messages)),
    }
}

} // verus!
