//! The user and session of the last login, remembered between runs.
use vstd::prelude::*;

use crate::text;

verus! {

#[derive(Debug, Clone)]
pub struct LaunchState {
    pub username: String,
    pub session_opt: String,
}

/// The text of the state file: the user name and the session, one per line.
pub open spec fn state_text(username: Seq<char>, session: Seq<char>) -> Seq<char> {
    username + seq!['\n'] + session + seq!['\n']
}

/// The state a file holds: its first two lines, when it has two.
pub open spec fn state_of(content: Seq<char>) -> Option<(Seq<char>, Seq<char>)> {
    let ls = text::lines_seq(content);
    if ls.len() >= 2 {
        Some((ls[0], ls[1]))
    } else {
        None
    }
}

pub fn format_launch_state(state: &LaunchState) -> (r: String)
    ensures
        r@ == state_text(state.username@, state.session_opt@),
{
    let mut r = state.username.clone();
    r.push('\n');
    text::push_str(&mut r, state.session_opt.as_str());
    r.push('\n');
    r
}

pub fn parse_launch_state(content: &str) -> (r: Option<LaunchState>)
    ensures
        match r {
            Some(s) => state_of(content@) == Some((s.username@, s.session_opt@)),
            None => state_of(content@) is None,
        },
{
    let ls = text::lines(content);
    if ls.len() < 2 {
        return None;
    }
    assert(ls.deep_view()[0] == ls@[0]@);
    assert(ls.deep_view()[1] == ls@[1]@);
    Some(LaunchState { username: ls[0].clone(), session_opt: ls[1].clone() })
}

proof fn lemma_lines_of_line(l: Seq<char>, rest: Seq<char>)
    requires
        !l.contains('\n'),
        !(l.len() > 0 && l.last() == '\r'),
    ensures
        text::lines_seq(l + seq!['\n'] + rest) == seq![l] + text::lines_seq(rest),
{
    let s = l + seq!['\n'] + rest;
    assert forall|j: int| 0 <= j < l.len() implies s[j] != '\n' by {
        assert(s[j] == l[j]);
        if l[j] == '\n' {
            assert(l.contains('\n'));
        }
    }
    text::lemma_find_char_unique(s, '\n', l.len() as int);
    assert(s.take(l.len() as int) =~= l);
    assert(s.skip(l.len() as int + 1) =~= rest);
}

/// Writing the state and reading it back gives the same user and session,
/// when neither holds a line break nor ends with a carriage return.
pub proof fn law_state_round_trip(username: Seq<char>, session: Seq<char>)
    requires
        !username.contains('\n'),
        !session.contains('\n'),
        !(username.len() > 0 && username.last() == '\r'),
        !(session.len() > 0 && session.last() == '\r'),
    ensures
        state_of(state_text(username, session)) == Some((username, session)),
{
    let tail = session + seq!['\n'];
    lemma_lines_of_line(session, Seq::empty());
    assert(session + seq!['\n'] + Seq::<char>::empty() =~= tail);
    assert(text::lines_seq(Seq::<char>::empty()) =~= Seq::<Seq<char>>::empty());
    lemma_lines_of_line(username, tail);
    assert(state_text(username, session) =~= username + seq!['\n'] + tail);
}

} // verus!
