//! The state of the login screen and what a key press does to it.
//!
//! The three text fields are tui-input `Input` values; the screen reads
//! their text and cursor and hands them the key events it does not handle
//! itself.
use vstd::prelude::*;
use crossterm::event::Event;
use ratatui::layout::{Constraint, Direction, Flex, Layout, Rect};
use tui_input::backend::crossterm::EventHandler;
use tui_input::{Input, InputRequest};

use crate::auth::{PamMessage, messages_view};
use crate::colors::{ThemeStyle, opt_string_view};
use crate::config::{Config, Functions};
use crate::session::{Session, SessionType};
use crate::theme::Theme;
use crate::users::LocalUser;
use crate::text;

verus! {

// ---------------------------------------------------------------------------
// The text inputs
// ---------------------------------------------------------------------------

#[verifier::external_type_specification]
#[verifier::external_body]
pub struct ExInput(Input);

#[verifier::external_type_specification]
#[verifier::external_body]
pub struct ExEvent(Event);

/// The text an `Input` holds.
pub uninterp spec fn input_value(i: Input) -> Seq<char>;

/// The number of characters before the cursor of an `Input`.
pub uninterp spec fn input_cursor(i: Input) -> nat;

/// Calls `Input::new`, which holds `value` with the cursor after its last
/// character.
#[verifier::external_body]
fn new_input(value: String) -> (r: Input)
    ensures
        input_value(r) == value@,
        input_cursor(r) == value@.len(),
{
    Input::new(value)
}

/// Calls `Input::default`: no text, cursor at the start.
#[verifier::external_body]
fn empty_input() -> (r: Input)
    ensures
        input_value(r) == Seq::<char>::empty(),
        input_cursor(r) == 0,
{
    Input::default()
}

/// Calls `Input::value`.
#[verifier::external_body]
fn input_text(i: &Input) -> (r: &str)
    ensures
        r@ == input_value(*i),
{
    i.value()
}

/// Calls `Input::cursor`.
#[verifier::external_body]
fn input_position(i: &Input) -> (r: usize)
    ensures
        r == input_cursor(*i),
{
    i.cursor()
}

/// Calls tui-input's `EventHandler::handle_event`, which edits the text and
/// moves the cursor as its key bindings say. What it does depends on the
/// event and on the input's own cut buffer, so nothing is stated of it.
#[verifier::external_body]
fn input_handle_event(i: &mut Input, event: &Event) {
    i.handle_event(event);
}

/// Where the cursor of `i` stands in its text: tui-input counts a cursor past
/// the end as the end.
pub open spec fn cursor_place(i: Input) -> int {
    if input_cursor(i) <= input_value(i).len() {
        input_cursor(i) as int
    } else {
        input_value(i).len() as int
    }
}

/// `b` is `a` with `c` inserted at the cursor and the cursor one further.
pub open spec fn inserted(a: Input, b: Input, c: char) -> bool {
    let v = input_value(a);
    let p = cursor_place(a);
    &&& input_value(b) == v.take(p) + seq![c] + v.skip(p)
    &&& input_cursor(b) == input_cursor(a) + 1
}

/// `v` without the `k` characters before position `p`.
pub open spec fn cut_before(v: Seq<char>, p: int, k: int) -> Seq<char> {
    v.take(p - k) + v.skip(p)
}

/// `b` is `a` after deleting before the cursor: nothing at the start of the
/// text; otherwise the characters of the one grapheme before the cursor
/// (at least one character) are removed and the cursor moves back over them.
pub open spec fn deleted_before_cursor(a: Input, b: Input) -> bool {
    let v = input_value(a);
    let p = cursor_place(a);
    if p == 0 {
        input_value(b) == v && input_cursor(b) == input_cursor(a)
    } else {
        exists|k: int|
            1 <= k <= p && input_value(b) == #[trigger] cut_before(v, p, k) && input_cursor(b)
                == input_cursor(a) - k
    }
}

/// Calls `Input::handle(InputRequest::InsertChar(c))`, which inserts `c`
/// at the cursor (at the end when the cursor is past it) and adds one to
/// the cursor.
#[verifier::external_body]
fn input_insert_char(i: &mut Input, c: char)
    requires
        input_cursor(*old(i)) < usize::MAX,
    ensures
        inserted(*old(i), *final(i), c),
{
    i.handle(InputRequest::InsertChar(c));
}

/// Calls `Input::handle(InputRequest::DeletePrevChar)`, which removes the
/// grapheme before the cursor and moves the cursor back over its
/// characters; at the start of the text nothing changes. Where graphemes
/// begin is Unicode's segmentation and is not restated here.
#[verifier::external_body]
fn input_delete_prev_char(i: &mut Input)
    ensures
        deleted_before_cursor(*old(i), *final(i)),
{
    i.handle(InputRequest::DeletePrevChar);
}

// ---------------------------------------------------------------------------
// Fields, keys and results
// ---------------------------------------------------------------------------

#[derive(Debug, Clone, Copy, PartialEq, Eq, Structural)]
pub enum Field {
    Session,
    User,
    Password,
}

impl Default for Field {
    fn default() -> (r: Self)
        ensures
            r == Field::User,
    {
        Field::User
    }
}

pub open spec fn next_field(f: Field) -> Field {
    match f {
        Field::Session => Field::User,
        Field::User => Field::Password,
        Field::Password => Field::Session,
    }
}

pub open spec fn prev_field(f: Field) -> Field {
    match f {
        Field::Session => Field::Password,
        Field::User => Field::Session,
        Field::Password => Field::User,
    }
}

impl Field {
    /// The field below, wrapping from the last to the first.
    pub fn next(self) -> (r: Self)
        ensures
            r == next_field(self),
    {
        match self {
            Self::Session => Self::User,
            Self::User => Self::Password,
            Self::Password => Self::Session,
        }
    }

    /// The field above, wrapping from the first to the last.
    pub fn prev(self) -> (r: Self)
        ensures
            r == prev_field(self),
    {
        match self {
            Self::Session => Self::Password,
            Self::User => Self::Session,
            Self::Password => Self::User,
        }
    }
}

/// Moving the focus down and then up, or up and then down, comes back to
/// the same field.
pub proof fn law_focus_moves_undo(f: Field)
    ensures
        prev_field(next_field(f)) == f,
        next_field(prev_field(f)) == f,
{
}

/// Three moves in the same direction visit every field once and come back
/// to the start.
pub proof fn law_focus_cycles_through_all(f: Field)
    ensures
        next_field(next_field(next_field(f))) == f,
        prev_field(prev_field(prev_field(f))) == f,
        next_field(f) != f,
        next_field(next_field(f)) != f,
        next_field(next_field(f)) != next_field(f),
{
}

/// A key as the screen reads it.
#[derive(Debug, Clone, Copy, PartialEq, Eq, Structural)]
pub enum KeyCodeKind {
    Char(char),
    F(u8),
    Up,
    Down,
    Left,
    Right,
    Enter,
    Backspace,
    Tab,
    /// Shift+Tab.
    BackTab,
    /// Any other key.
    Other,
}

/// A key event: its key, the modifiers held, and whether it is a press (or
/// its repetition) rather than a release.
#[derive(Debug, Clone, Copy, PartialEq, Eq, Structural)]
pub struct KeyPress {
    pub code: KeyCodeKind,
    pub shift: bool,
    pub control: bool,
    pub alt: bool,
    /// Super, Hyper or Meta.
    pub other_modifiers: bool,
    pub pressed: bool,
}

/// Control is the one modifier held.
pub open spec fn control_only(k: KeyPress) -> bool {
    k.control && !k.shift && !k.alt && !k.other_modifiers
}

/// A pressed key with no modifier but possibly Shift: a character key then
/// types its character.
pub open spec fn types_text(k: KeyPress) -> bool {
    k.pressed && !k.control && !k.alt && !k.other_modifiers
}

/// A pressed key with no modifier at all.
pub open spec fn unmodified(k: KeyPress) -> bool {
    k.pressed && !k.shift && !k.control && !k.alt && !k.other_modifiers
}

/// What a key that goes to a text input does to it: a typed character is
/// inserted at the cursor, and Backspace deletes before the cursor. Other
/// keys are tui-input's to interpret and nothing is stated of them.
pub open spec fn edited_by(a: Input, b: Input, key: KeyPress) -> bool {
    match key.code {
        KeyCodeKind::Char(c) => types_text(key) && input_cursor(a) < usize::MAX ==> inserted(
            a,
            b,
            c,
        ),
        KeyCodeKind::Backspace => unmodified(key) ==> deleted_before_cursor(a, b),
        _ => true,
    }
}

/// Gives `key` (whose terminal event is `event`) to a text input.
fn edit_input(i: &mut Input, key: KeyPress, event: &Event)
    ensures
        edited_by(*old(i), *final(i), key),
{
    match key.code {
        KeyCodeKind::Char(c) => {
            if key.pressed && !key.control && !key.alt && !key.other_modifiers && input_position(
                &*i,
            ) < usize::MAX {
                input_insert_char(i, c);
            } else {
                input_handle_event(i, event);
            }
        },
        KeyCodeKind::Backspace => {
            if key.pressed && !key.shift && !key.control && !key.alt && !key.other_modifiers {
                input_delete_prev_char(i);
            } else {
                input_handle_event(i, event);
            }
        },
        _ => input_handle_event(i, event),
    }
}

/// What the user asks for: the selected session and user, the password,
/// and the custom session command and user name typed, if any.
#[derive(Debug, Clone)]
pub struct LoginRequest {
    pub session_idx: usize,
    pub user_idx: usize,
    pub password: String,
    pub custom_session: String,
    pub custom_user: String,
}

pub open spec fn request_view(q: LoginRequest) -> (usize, usize, Seq<char>, Seq<char>, Seq<char>) {
    (q.session_idx, q.user_idx, q.password@, q.custom_session@, q.custom_user@)
}

impl Default for LoginRequest {
    fn default() -> (r: Self)
        ensures
            request_view(r) == (0usize, 0usize, Seq::<char>::empty(), Seq::<char>::empty(), Seq::<
                char,
            >::empty()),
    {
        LoginRequest {
            session_idx: 0,
            user_idx: 0,
            password: String::new(),
            custom_session: String::new(),
            custom_user: String::new(),
        }
    }
}

impl LoginRequest {
    pub fn new(
        session_idx: usize,
        user_idx: usize,
        password: &str,
        custom_session: &str,
        custom_user: &str,
    ) -> (r: Self)
        ensures
            request_view(r) == (session_idx, user_idx, password@, custom_session@, custom_user@),
    {
        Self {
            session_idx,
            user_idx,
            password: text::str_to_string(password),
            custom_session: text::str_to_string(custom_session),
            custom_user: text::str_to_string(custom_user),
        }
    }
}

#[derive(Debug, Clone, Copy, PartialEq, Eq, Structural)]
pub enum HotkeyAction {
    Poweroff,
    Reboot,
    Fido,
    Theme,
}

/// How the screen ends.
#[derive(Debug)]
pub enum UIResult {
    Login(LoginRequest),
    Poweroff,
    Reboot,
    Exit,
}

// ---------------------------------------------------------------------------
// Hotkeys
// ---------------------------------------------------------------------------

/// The function key a hotkey names: `F` followed by a number that
/// `u8::from_str` reads.
pub open spec fn hotkey_number(k: Option<String>) -> Option<u8> {
    match k {
        Some(s) => if s@.len() > 0 && s@[0] == 'F' {
            text::parse_u8_spec(s@.drop_first())
        } else {
            None
        },
        None => None,
    }
}

pub open spec fn hotkey_is(k: Option<String>, code: KeyCodeKind) -> bool {
    match hotkey_number(k) {
        Some(n) => code == KeyCodeKind::F(n),
        None => false,
    }
}

/// The action bound to a key: the first of poweroff, reboot, fido and
/// theme whose hotkey is that key.
pub open spec fn hotkey_action(f: Functions, code: KeyCodeKind) -> Option<HotkeyAction> {
    if hotkey_is(f.poweroff, code) {
        Some(HotkeyAction::Poweroff)
    } else if hotkey_is(f.reboot, code) {
        Some(HotkeyAction::Reboot)
    } else if hotkey_is(f.fido, code) {
        Some(HotkeyAction::Fido)
    } else if hotkey_is(f.theme, code) {
        Some(HotkeyAction::Theme)
    } else {
        None
    }
}

fn hotkey_of(k: &Option<String>) -> (r: Option<u8>)
    ensures
        r == hotkey_number(*k),
{
    match k {
        Some(s) => {
            let x = text::chars_of(s.as_str());
            if x.len() > 0 && x[0] == 'F' {
                assert(x@.subrange(1, x@.len() as int) =~= s@.drop_first());
                text::parse_u8_range(x.as_slice(), 1, x.len())
            } else {
                None
            }
        },
        None => None,
    }
}

fn hotkey_matches(k: &Option<String>, code: KeyCodeKind) -> (r: bool)
    ensures
        r == hotkey_is(*k, code),
{
    match hotkey_of(k) {
        Some(n) => match code {
            KeyCodeKind::F(m) => m == n,
            _ => false,
        },
        None => false,
    }
}

// ---------------------------------------------------------------------------
// The screen
// ---------------------------------------------------------------------------

/// What the screen starts from.
pub struct UIContext<'a> {
    pub config: Config,
    pub sessions: Vec<Session>,
    pub users: Vec<LocalUser>,
    pub initial_user: Option<&'a str>,
    pub initial_session: Option<&'a str>,
    /// Whether a console buffer is attached to the screen.
    pub has_console: bool,
    pub pam_messages: Vec<PamMessage>,
    pub auth_error: bool,
    /// The themes the theme hotkey cycles through, the current one first.
    pub themes: Vec<Theme>,
}

impl<'a> Default for UIContext<'a> {
    fn default() -> (r: Self)
        ensures
            r.config@ == crate::config::default_config(),
            r.sessions@.len() == 0,
            r.users@.len() == 0,
            r.initial_user is None,
            r.initial_session is None,
            !r.has_console,
            r.pam_messages@.len() == 0,
            !r.auth_error,
            r.themes@.len() == 0,
    {
        UIContext {
            config: Config::default(),
            sessions: Vec::new(),
            users: Vec::new(),
            initial_user: None,
            initial_session: None,
            has_console: false,
            pam_messages: Vec::new(),
            auth_error: false,
            themes: Vec::new(),
        }
    }
}

pub struct UI {
    pub config: Config,
    pub sessions: Vec<Session>,
    pub users: Vec<LocalUser>,
    pub selected_session_idx: usize,
    pub selected_user_idx: usize,
    pub session_input: Input,
    pub user_input: Input,
    pub password_input: Input,
    pub focused_field: Field,
    pub custom_session: bool,
    pub custom_user: bool,
    pub auth_error: bool,
    pub pam_messages: Vec<PamMessage>,
    pub themes: Vec<Theme>,
    pub current_theme_idx: usize,
    pub has_console: bool,
}

/// `i` is the first position of `name` in `names`.
pub open spec fn is_first(names: Seq<Seq<char>>, name: Seq<char>, i: int) -> bool {
    &&& 0 <= i < names.len()
    &&& names[i] == name
    &&& forall|j: int| 0 <= j < i ==> names[j] != name
}

pub open spec fn user_names(users: Seq<LocalUser>) -> Seq<Seq<char>> {
    users.map_values(|u: LocalUser| u.username@)
}

pub open spec fn session_names(sessions: Seq<Session>) -> Seq<Seq<char>> {
    sessions.map_values(|s: Session| s.name@)
}

/// The number of session choices: the sessions, and the user's own shell
/// when it is offered.
pub open spec fn session_count(ui: UI) -> int {
    ui.sessions@.len() + if ui.config.behavior.include_defshell {
        1int
    } else {
        0int
    }
}

/// The index after one step of `dir` through `len` choices: forward wraps
/// to the first, backward from the first goes to the last. With no choices
/// the index stays.
pub open spec fn cycled(idx: int, len: int, dir: i32) -> int {
    if len > 0 {
        if dir > 0 {
            (idx + 1) % len
        } else if idx >= 1 {
            idx - 1
        } else {
            len - 1
        }
    } else {
        idx
    }
}

fn cycle(idx: usize, len: u128, dir: i32) -> (r: usize)
    requires
        len <= usize::MAX + 1,
    ensures
        r == cycled(idx as int, len as int, dir),
{
    if len > 0 {
        if dir > 0 {
            ((idx as u128 + 1) % len) as usize
        } else if idx >= 1 {
            idx - 1
        } else {
            (len - 1) as usize
        }
    } else {
        idx
    }
}

/// The data the screen was given is unchanged.
pub open spec fn same_setup(a: UI, b: UI) -> bool {
    &&& b.config == a.config
    &&& b.sessions == a.sessions
    &&& b.users == a.users
    &&& b.themes == a.themes
    &&& b.current_theme_idx == a.current_theme_idx
    &&& b.has_console == a.has_console
}

/// The selections and the three inputs are unchanged.
pub open spec fn same_choices(a: UI, b: UI) -> bool {
    &&& b.selected_session_idx == a.selected_session_idx
    &&& b.selected_user_idx == a.selected_user_idx
    &&& b.custom_session == a.custom_session
    &&& b.custom_user == a.custom_user
    &&& b.session_input == a.session_input
    &&& b.user_input == a.user_input
    &&& b.password_input == a.password_input
}

/// Everything but the error flag is unchanged.
pub open spec fn same_but_error(a: UI, b: UI) -> bool {
    &&& same_setup(a, b)
    &&& same_choices(a, b)
    &&& b.focused_field == a.focused_field
    &&& b.pam_messages == a.pam_messages
}

/// `b` is `a` after the theme hotkey: the next theme (wrapping) is current
/// and its colours are in use; nothing else changes. With no themes
/// nothing changes at all.
pub open spec fn theme_cycled(a: UI, b: UI) -> bool {
    if a.themes@.len() == 0 {
        same_setup(a, b)
    } else {
        let i = (a.current_theme_idx + 1) % (a.themes@.len() as int);
        &&& b.current_theme_idx == i
        &&& b.config.colors@ == a.themes@[i].colors@
        &&& b.config.functions == a.config.functions
        &&& b.config.strings == a.config.strings
        &&& b.config.behavior == a.config.behavior
        &&& b.config.logging == a.config.logging
        &&& b.config.auth == a.config.auth
        &&& b.sessions == a.sessions
        &&& b.users == a.users
        &&& b.themes == a.themes
        &&& b.has_console == a.has_console
    }
}

/// `b` is `a` after one step of `dir` through the session choices: the
/// typed session is dropped.
pub open spec fn session_changed(a: UI, b: UI, dir: i32) -> bool {
    &&& same_setup(a, b)
    &&& b.selected_session_idx == cycled(a.selected_session_idx as int, session_count(a), dir)
    &&& !b.custom_session
    &&& input_value(b.session_input) == Seq::<char>::empty()
    &&& input_cursor(b.session_input) == 0
    &&& b.selected_user_idx == a.selected_user_idx
    &&& b.custom_user == a.custom_user
    &&& b.user_input == a.user_input
    &&& b.password_input == a.password_input
}

/// `b` is `a` after one step of `dir` through the users: the typed user
/// name is dropped.
pub open spec fn user_changed(a: UI, b: UI, dir: i32) -> bool {
    &&& same_setup(a, b)
    &&& b.selected_user_idx == cycled(a.selected_user_idx as int, a.users@.len() as int, dir)
    &&& !b.custom_user
    &&& input_value(b.user_input) == Seq::<char>::empty()
    &&& input_cursor(b.user_input) == 0
    &&& b.selected_session_idx == a.selected_session_idx
    &&& b.custom_session == a.custom_session
    &&& b.session_input == a.session_input
    &&& b.password_input == a.password_input
}

/// The request the Enter key sends: the selections and the three texts.
pub open spec fn login_view(ui: UI) -> (usize, usize, Seq<char>, Seq<char>, Seq<char>) {
    (
        ui.selected_session_idx,
        ui.selected_user_idx,
        input_value(ui.password_input),
        input_value(ui.session_input),
        input_value(ui.user_input),
    )
}

/// The request the FIDO hotkey sends: as for Enter, with no password.
pub open spec fn fido_view(ui: UI) -> (usize, usize, Seq<char>, Seq<char>, Seq<char>) {
    (
        ui.selected_session_idx,
        ui.selected_user_idx,
        Seq::<char>::empty(),
        input_value(ui.session_input),
        input_value(ui.user_input),
    )
}

/// The kind of the selected session; `None` while a session command is
/// typed or when the selection is past the listed sessions.
pub open spec fn selected_type(ui: UI) -> Option<SessionType> {
    if ui.custom_session {
        None
    } else if ui.selected_session_idx < ui.sessions@.len() {
        Some(ui.sessions@[ui.selected_session_idx as int].session_type)
    } else {
        None
    }
}

pub open spec fn session_label_spec(ui: UI) -> Seq<char> {
    match selected_type(ui) {
        Some(SessionType::Xorg) => ui.config.strings.s_xorg@,
        Some(SessionType::Wayland) => ui.config.strings.s_wayland@,
        _ => ui.config.strings.s_shell@,
    }
}

pub open spec fn field_label_spec(ui: UI, field: Field) -> Seq<char> {
    match field {
        Field::Session => session_label_spec(ui),
        Field::User => ui.config.strings.e_user@,
        Field::Password => ui.config.strings.e_passwd@,
    }
}

/// The text shown in a field. A typed session or user is shown as typed.
/// Otherwise the session field shows the selected session's name, or past
/// the sessions the selected user's shell (`Shell` when there is no such
/// user), and the user field the selected user's display name (`Unknown`
/// when there is none). The password shows one `*` per byte of the
/// password.
pub open spec fn display_text_spec(ui: UI, field: Field) -> Seq<char> {
    match field {
        Field::Session => if ui.custom_session {
            input_value(ui.session_input)
        } else if ui.selected_session_idx < ui.sessions@.len() {
            ui.sessions@[ui.selected_session_idx as int].name@
        } else if ui.selected_user_idx < ui.users@.len() {
            ui.users@[ui.selected_user_idx as int].shell@
        } else {
            "Shell"@
        },
        Field::User => if ui.custom_user {
            input_value(ui.user_input)
        } else if ui.selected_user_idx < ui.users@.len() {
            ui.users@[ui.selected_user_idx as int].display_name@
        } else {
            "Unknown"@
        },
        Field::Password => Seq::new(text::utf8_len(input_value(ui.password_input)), |_i: int| '*'),
    }
}

/// The colour entry a field's value is drawn with.
pub open spec fn value_style_spec(ui: UI, field: Field) -> crate::colors::StyleView {
    match field {
        Field::Session => match selected_type(ui) {
            Some(SessionType::Xorg) => ui.config.colors.s_xorg@,
            Some(SessionType::Wayland) => ui.config.colors.s_wayland@,
            _ => ui.config.colors.s_shell@,
        },
        Field::User => ui.config.colors.e_user@,
        Field::Password => if ui.auth_error {
            ui.config.colors.e_badpasswd@
        } else {
            ui.config.colors.e_passwd@
        },
    }
}

/// Whether the `< >` selector is drawn around a field's value: never for
/// the password, and for the other two while nothing is typed and there is
/// something to choose.
pub open spec fn show_selector_spec(ui: UI, field: Field) -> bool {
    match field {
        Field::Password => false,
        Field::Session => !ui.custom_session && session_count(ui) > 0,
        Field::User => !ui.custom_user && ui.users@.len() > 0,
    }
}

pub open spec fn focused_input(ui: UI) -> Input {
    match ui.focused_field {
        Field::Session => ui.session_input,
        Field::User => ui.user_input,
        Field::Password => ui.password_input,
    }
}

/// Where the cursor stands in the focused field's value, in columns after
/// the value's start: the cursor, after the selector's opening text (its
/// byte length) when the selector is shown; truncated to `u16`.
pub open spec fn cursor_offset_spec(ui: UI) -> u16 {
    let selector: int = if show_selector_spec(ui, ui.focused_field) {
        text::utf8_len(ui.config.strings.opts_pre@) as int
    } else {
        0
    };
    (selector + input_cursor(focused_input(ui))) as u16
}

/// The theme name shown: the name, with the path in brackets when the path
/// says more than the name.
pub open spec fn theme_display_spec(name: Seq<char>, path: Seq<char>) -> Seq<char> {
    if path.len() == 0 || path == "default"@ || path == name {
        name
    } else {
        name + " ("@ + path + ")"@
    }
}

pub open spec fn current_theme_name_spec(ui: UI) -> Seq<char> {
    if ui.current_theme_idx < ui.themes@.len() {
        ui.themes@[ui.current_theme_idx as int].name@
    } else {
        ""@
    }
}

pub open spec fn current_theme_path_spec(ui: UI) -> Seq<char> {
    if ui.current_theme_idx < ui.themes@.len() {
        ui.themes@[ui.current_theme_idx as int].path@
    } else {
        ""@
    }
}

fn first_user(users: &[LocalUser], name: &str) -> (r: Option<usize>)
    ensures
        match r {
            Some(i) => is_first(user_names(users@), name@, i as int),
            None => !user_names(users@).contains(name@),
        },
{
    let ghost names = user_names(users@);
    let mut i: usize = 0;
    while i < users.len()
        invariant
            i <= users@.len(),
            names == user_names(users@),
            forall|j: int| 0 <= j < i ==> names[j] != name@,
        decreases users@.len() - i,
    {
        if text::str_equal(users[i].username.as_str(), name) {
            return Some(i);
        }
        i = i + 1;
    }
    None
}

fn first_session(sessions: &[Session], name: &str) -> (r: Option<usize>)
    ensures
        match r {
            Some(i) => is_first(session_names(sessions@), name@, i as int),
            None => !session_names(sessions@).contains(name@),
        },
{
    let ghost names = session_names(sessions@);
    let mut i: usize = 0;
    while i < sessions.len()
        invariant
            i <= sessions@.len(),
            names == session_names(sessions@),
            forall|j: int| 0 <= j < i ==> names[j] != name@,
        decreases sessions@.len() - i,
    {
        if text::str_equal(sessions[i].name.as_str(), name) {
            return Some(i);
        }
        i = i + 1;
    }
    None
}

impl UI {
    /// The screen for `ctx`, with the focus on the user field.
    ///
    /// An initial user that is listed is selected; one that is not is put
    /// in the user field as typed. An initial session that is listed is
    /// selected; else, when the user's own shell is offered and it is the
    /// selected user's shell, the shell entry (one past the sessions) is
    /// selected; else it is put in the session field as typed.
    pub fn new(ctx: UIContext) -> (r: Self)
        ensures
            r.config == ctx.config,
            r.sessions == ctx.sessions,
            r.users == ctx.users,
            r.themes == ctx.themes,
            r.current_theme_idx == 0,
            r.has_console == ctx.has_console,
            r.auth_error == ctx.auth_error,
            r.pam_messages == ctx.pam_messages,
            r.focused_field == Field::User,
            input_value(r.password_input) == Seq::<char>::empty(),
            input_cursor(r.password_input) == 0,
            match ctx.initial_user {
                Some(n) => if user_names(ctx.users@).contains(n@) {
                    &&& is_first(user_names(ctx.users@), n@, r.selected_user_idx as int)
                    &&& !r.custom_user
                    &&& input_value(r.user_input) == Seq::<char>::empty()
                    &&& input_cursor(r.user_input) == 0
                } else {
                    &&& r.selected_user_idx == 0
                    &&& r.custom_user
                    &&& input_value(r.user_input) == n@
                    &&& input_cursor(r.user_input) == n@.len()
                },
                None => {
                    &&& r.selected_user_idx == 0
                    &&& !r.custom_user
                    &&& input_value(r.user_input) == Seq::<char>::empty()
                    &&& input_cursor(r.user_input) == 0
                },
            },
            match ctx.initial_session {
                Some(n) => if session_names(ctx.sessions@).contains(n@) {
                    &&& is_first(session_names(ctx.sessions@), n@, r.selected_session_idx as int)
                    &&& !r.custom_session
                    &&& input_value(r.session_input) == Seq::<char>::empty()
                    &&& input_cursor(r.session_input) == 0
                } else if ctx.config.behavior.include_defshell && r.selected_user_idx
                    < ctx.users@.len() && ctx.users@[r.selected_user_idx as int].shell@ == n@ {
                    &&& r.selected_session_idx == ctx.sessions@.len()
                    &&& !r.custom_session
                    &&& input_value(r.session_input) == Seq::<char>::empty()
                    &&& input_cursor(r.session_input) == 0
                } else {
                    &&& r.selected_session_idx == 0
                    &&& r.custom_session
                    &&& input_value(r.session_input) == n@
                    &&& input_cursor(r.session_input) == n@.len()
                },
                None => {
                    &&& r.selected_session_idx == 0
                    &&& !r.custom_session
                    &&& input_value(r.session_input) == Seq::<char>::empty()
                    &&& input_cursor(r.session_input) == 0
                },
            },
    {
        let include_defshell = ctx.config.behavior.include_defshell;
        let (selected_user_idx, custom_user, user_input) = match ctx.initial_user {
            Some(name) => match first_user(ctx.users.as_slice(), name) {
                Some(idx) => (idx, false, empty_input()),
                None => (0, true, new_input(text::str_to_string(name))),
            },
            None => (0, false, empty_input()),
        };
        let (selected_session_idx, custom_session, session_input) = match ctx.initial_session {
            Some(name) => match first_session(ctx.sessions.as_slice(), name) {
                Some(idx) => (idx, false, empty_input()),
                None => {
                    if include_defshell && selected_user_idx < ctx.users.len()
                        && text::str_equal(ctx.users[selected_user_idx].shell.as_str(), name) {
                        (ctx.sessions.len(), false, empty_input())
                    } else {
                        (0, true, new_input(text::str_to_string(name)))
                    }
                },
            },
            None => (0, false, empty_input()),
        };
        UI {
            config: ctx.config,
            sessions: ctx.sessions,
            users: ctx.users,
            selected_session_idx,
            selected_user_idx,
            session_input,
            user_input,
            password_input: empty_input(),
            focused_field: Field::User,
            custom_session,
            custom_user,
            auth_error: ctx.auth_error,
            pam_messages: ctx.pam_messages,
            themes: ctx.themes,
            current_theme_idx: 0,
            has_console: ctx.has_console,
        }
    }
}

impl UI {
    /// One step of `dir` through the session choices (the sessions, then
    /// the user's shell when it is offered); the typed session is dropped.
    pub fn change_session(&mut self, dir: i32)
        ensures
            session_changed(*old(self), *final(self), dir),
            final(self).focused_field == old(self).focused_field,
            final(self).auth_error == old(self).auth_error,
            final(self).pam_messages == old(self).pam_messages,
    {
        let extra: u128 = if self.config.behavior.include_defshell {
            1
        } else {
            0
        };
        let count: u128 = self.sessions.len() as u128 + extra;
        self.selected_session_idx = cycle(self.selected_session_idx, count, dir);
        self.custom_session = false;
        self.session_input = empty_input();
    }

    /// One step of `dir` through the users; the typed user name is dropped.
    pub fn change_user(&mut self, dir: i32)
        ensures
            user_changed(*old(self), *final(self), dir),
            final(self).focused_field == old(self).focused_field,
            final(self).auth_error == old(self).auth_error,
            final(self).pam_messages == old(self).pam_messages,
    {
        self.selected_user_idx = cycle(self.selected_user_idx, self.users.len() as u128, dir);
        self.custom_user = false;
        self.user_input = empty_input();
    }

    /// The action whose hotkey is `key_code`, if any.
    pub fn check_hotkey(&self, key_code: KeyCodeKind) -> (r: Option<HotkeyAction>)
        ensures
            r == hotkey_action(self.config.functions, key_code),
    {
        if hotkey_matches(&self.config.functions.poweroff, key_code) {
            Some(HotkeyAction::Poweroff)
        } else if hotkey_matches(&self.config.functions.reboot, key_code) {
            Some(HotkeyAction::Reboot)
        } else if hotkey_matches(&self.config.functions.fido, key_code) {
            Some(HotkeyAction::Fido)
        } else if hotkey_matches(&self.config.functions.theme, key_code) {
            Some(HotkeyAction::Theme)
        } else {
            None
        }
    }

    /// Makes the next theme (wrapping to the first) current and uses its
    /// colours.
    pub fn cycle_theme(&mut self)
        ensures
            theme_cycled(*old(self), *final(self)),
            same_choices(*old(self), *final(self)),
            final(self).focused_field == old(self).focused_field,
            final(self).auth_error == old(self).auth_error,
            final(self).pam_messages == old(self).pam_messages,
    {
        if self.themes.len() > 0 {
            let next = ((self.current_theme_idx as u128 + 1) % (self.themes.len() as u128)) as usize;
            self.current_theme_idx = next;
            self.config.colors = self.themes[next].colors.duplicate();
        }
    }

    pub fn current_theme_name(&self) -> (r: &str)
        ensures
            r@ == current_theme_name_spec(*self),
    {
        if self.current_theme_idx < self.themes.len() {
            self.themes[self.current_theme_idx].name.as_str()
        } else {
            ""
        }
    }

    pub fn current_theme_path(&self) -> (r: &str)
        ensures
            r@ == current_theme_path_spec(*self),
    {
        if self.current_theme_idx < self.themes.len() {
            self.themes[self.current_theme_idx].path.as_str()
        } else {
            ""
        }
    }

    pub fn current_theme_display(&self) -> (r: String)
        ensures
            r@ == theme_display_spec(current_theme_name_spec(*self), current_theme_path_spec(*self)),
    {
        let name = self.current_theme_name();
        let path = self.current_theme_path();
        if path.unicode_len() == 0 || text::str_equal(path, "default") || text::str_equal(path, name) {
            text::str_to_string(name)
        } else {
            let mut r = text::str_to_string(name);
            text::push_str(&mut r, " (");
            text::push_str(&mut r, path);
            text::push_str(&mut r, ")");
            r
        }
    }

    /// The request that Enter sends.
    pub fn login_request(&self) -> (r: LoginRequest)
        ensures
            request_view(r) == login_view(*self),
    {
        LoginRequest::new(
            self.selected_session_idx,
            self.selected_user_idx,
            input_text(&self.password_input),
            input_text(&self.session_input),
            input_text(&self.user_input),
        )
    }

    /// The request that the FIDO hotkey sends: no password.
    pub fn fido_login_request(&self) -> (r: LoginRequest)
        ensures
            request_view(r) == fido_view(*self),
    {
        proof {
            reveal_strlit("");
        }
        LoginRequest::new(
            self.selected_session_idx,
            self.selected_user_idx,
            "",
            input_text(&self.session_input),
            input_text(&self.user_input),
        )
    }

    fn selected_session_type(&self) -> (r: Option<SessionType>)
        ensures
            r == selected_type(*self),
    {
        if self.custom_session {
            None
        } else if self.selected_session_idx < self.sessions.len() {
            Some(self.sessions[self.selected_session_idx].session_type)
        } else {
            None
        }
    }

    /// The label of the session field, which names the kind of the selected
    /// session.
    pub fn session_label(&self) -> (r: &str)
        ensures
            r@ == session_label_spec(*self),
    {
        match self.selected_session_type() {
            Some(SessionType::Xorg) => self.config.strings.s_xorg.as_str(),
            Some(SessionType::Wayland) => self.config.strings.s_wayland.as_str(),
            _ => self.config.strings.s_shell.as_str(),
        }
    }

    pub fn field_label(&self, field: Field) -> (r: &str)
        ensures
            r@ == field_label_spec(*self, field),
    {
        match field {
            Field::Session => self.session_label(),
            Field::User => self.config.strings.e_user.as_str(),
            Field::Password => self.config.strings.e_passwd.as_str(),
        }
    }

    pub fn field_display_text(&self, field: Field) -> (r: String)
        ensures
            r@ == display_text_spec(*self, field),
    {
        match field {
            Field::Session => {
                if self.custom_session {
                    text::str_to_string(input_text(&self.session_input))
                } else if self.selected_session_idx < self.sessions.len() {
                    self.sessions[self.selected_session_idx].name.clone()
                } else if self.selected_user_idx < self.users.len() {
                    self.users[self.selected_user_idx].shell.clone()
                } else {
                    text::str_to_string("Shell")
                }
            },
            Field::User => {
                if self.custom_user {
                    text::str_to_string(input_text(&self.user_input))
                } else if self.selected_user_idx < self.users.len() {
                    self.users[self.selected_user_idx].display_name.clone()
                } else {
                    text::str_to_string("Unknown")
                }
            },
            Field::Password => {
                let n = text::utf8_byte_len(input_text(&self.password_input));
                let mut r = String::new();
                let mut i: u128 = 0;
                while i < n
                    invariant
                        i <= n,
                        r@ == Seq::new(i as nat, |_j: int| '*'),
                    decreases n - i,
                {
                    r.push('*');
                    i = i + 1;
                    assert(r@ =~= Seq::new(i as nat, |_j: int| '*'));
                }
                assert(r@ =~= Seq::new(text::utf8_len(input_value(self.password_input)), |_j: int| '*'));
                r
            },
        }
    }

    /// The colour entry a field's value is drawn with: the kind of the
    /// selected session, the user colour, or the password colour (the bad
    /// password colour after a failed login).
    pub fn field_value_style(&self, field: Field) -> (r: ThemeStyle)
        ensures
            r@ == value_style_spec(*self, field),
    {
        match field {
            Field::Session => match self.selected_session_type() {
                Some(SessionType::Xorg) => self.config.colors.s_xorg.duplicate(),
                Some(SessionType::Wayland) => self.config.colors.s_wayland.duplicate(),
                _ => self.config.colors.s_shell.duplicate(),
            },
            Field::User => self.config.colors.e_user.duplicate(),
            Field::Password => if self.auth_error {
                self.config.colors.e_badpasswd.duplicate()
            } else {
                self.config.colors.e_passwd.duplicate()
            },
        }
    }

    pub fn show_selector(&self, field: Field) -> (r: bool)
        ensures
            r == show_selector_spec(*self, field),
    {
        match field {
            Field::Password => false,
            Field::Session => {
                !self.custom_session && (self.sessions.len() > 0
                    || self.config.behavior.include_defshell)
            },
            Field::User => !self.custom_user && self.users.len() > 0,
        }
    }

    /// The column of the cursor in the focused field's value.
    pub fn cursor_offset(&self) -> (r: u16)
        ensures
            r == cursor_offset_spec(*self),
    {
        let offset = match self.focused_field {
            Field::Session => input_position(&self.session_input),
            Field::User => input_position(&self.user_input),
            Field::Password => input_position(&self.password_input),
        };
        let selector: u128 = if self.show_selector(self.focused_field) {
            text::utf8_byte_len(self.config.strings.opts_pre.as_str())
        } else {
            0
        };
        (selector + offset as u128) as u16
    }
}

/// `b` is `a` after a key that goes to the focused field: the PAM messages
/// are cleared. Left and Right step through the sessions or the users. Any
/// other key edits the focused input as `edited_by` says, and in the
/// session and user fields marks the value as typed.
pub open spec fn field_key_handled(a: UI, b: UI, key: KeyPress) -> bool {
    &&& b.pam_messages@.len() == 0
    &&& b.focused_field == a.focused_field
    &&& match a.focused_field {
        Field::Session => if key.code == KeyCodeKind::Left {
            session_changed(a, b, -1i32)
        } else if key.code == KeyCodeKind::Right {
            session_changed(a, b, 1i32)
        } else {
            &&& same_setup(a, b)
            &&& b.custom_session
            &&& edited_by(a.session_input, b.session_input, key)
            &&& b.selected_session_idx == a.selected_session_idx
            &&& b.selected_user_idx == a.selected_user_idx
            &&& b.custom_user == a.custom_user
            &&& b.user_input == a.user_input
            &&& b.password_input == a.password_input
        },
        Field::User => if key.code == KeyCodeKind::Left {
            user_changed(a, b, -1i32)
        } else if key.code == KeyCodeKind::Right {
            user_changed(a, b, 1i32)
        } else {
            &&& same_setup(a, b)
            &&& b.custom_user
            &&& edited_by(a.user_input, b.user_input, key)
            &&& b.selected_session_idx == a.selected_session_idx
            &&& b.selected_user_idx == a.selected_user_idx
            &&& b.custom_session == a.custom_session
            &&& b.session_input == a.session_input
            &&& b.password_input == a.password_input
        },
        Field::Password => {
            &&& same_setup(a, b)
            &&& edited_by(a.password_input, b.password_input, key)
            &&& b.selected_session_idx == a.selected_session_idx
            &&& b.selected_user_idx == a.selected_user_idx
            &&& b.custom_session == a.custom_session
            &&& b.custom_user == a.custom_user
            &&& b.session_input == a.session_input
            &&& b.user_input == a.user_input
        },
    }
}

/// What a key that is no hotkey does: Control-C exits, Up and Shift+Tab move
/// the focus up, Down and Tab move it down, Enter sends the login request,
/// and any other key goes to the focused field. The error flag is cleared
/// in every case.
pub open spec fn key_handled(a: UI, b: UI, key: KeyPress, r: Option<UIResult>) -> bool {
    if key.code == KeyCodeKind::Char('c') && control_only(key) {
        r == Some(UIResult::Exit) && same_but_error(a, b)
    } else if key.code == KeyCodeKind::Up || key.code == KeyCodeKind::BackTab {
        &&& r is None
        &&& b.focused_field == prev_field(a.focused_field)
        &&& same_setup(a, b)
        &&& same_choices(a, b)
        &&& b.pam_messages == a.pam_messages
    } else if key.code == KeyCodeKind::Down || key.code == KeyCodeKind::Tab {
        &&& r is None
        &&& b.focused_field == next_field(a.focused_field)
        &&& same_setup(a, b)
        &&& same_choices(a, b)
        &&& b.pam_messages == a.pam_messages
    } else if key.code == KeyCodeKind::Enter {
        &&& r matches Some(UIResult::Login(q))
        &&& request_view(q) == login_view(a)
        &&& same_but_error(a, b)
    } else {
        &&& r is None
        &&& field_key_handled(a, b, key)
    }
}

impl UI {
    /// Handles one key press. `event` is the terminal event of the same
    /// key; the focused input gets it when the key is for the field.
    ///
    /// Hotkeys come first: poweroff and reboot end the screen with that
    /// result, FIDO sends a login request without password, and the theme
    /// hotkey moves to the next theme.
    pub fn handle_key_event(&mut self, key: KeyPress, event: &Event) -> (r: Option<UIResult>)
        ensures
            !final(self).auth_error,
            match hotkey_action(old(self).config.functions, key.code) {
                Some(HotkeyAction::Poweroff) => {
                    &&& r == Some(UIResult::Poweroff)
                    &&& same_but_error(*old(self), *final(self))
                },
                Some(HotkeyAction::Reboot) => {
                    &&& r == Some(UIResult::Reboot)
                    &&& same_but_error(*old(self), *final(self))
                },
                Some(HotkeyAction::Fido) => {
                    &&& r matches Some(UIResult::Login(q))
                    &&& request_view(q) == fido_view(*old(self))
                    &&& same_but_error(*old(self), *final(self))
                },
                Some(HotkeyAction::Theme) => {
                    &&& r is None
                    &&& theme_cycled(*old(self), *final(self))
                    &&& same_choices(*old(self), *final(self))
                    &&& final(self).focused_field == old(self).focused_field
                    &&& final(self).pam_messages == old(self).pam_messages
                },
                None => key_handled(*old(self), *final(self), key, r),
            },
    {
        self.auth_error = false;
        if let Some(action) = self.check_hotkey(key.code) {
            return match action {
                HotkeyAction::Poweroff => Some(UIResult::Poweroff),
                HotkeyAction::Reboot => Some(UIResult::Reboot),
                HotkeyAction::Fido => Some(UIResult::Login(self.fido_login_request())),
                HotkeyAction::Theme => {
                    self.cycle_theme();
                    None
                },
            };
        }
        if key.control && !key.shift && !key.alt && !key.other_modifiers && key.code
            == KeyCodeKind::Char('c') {
            return Some(UIResult::Exit);
        }
        match key.code {
            KeyCodeKind::Up | KeyCodeKind::BackTab => {
                self.focused_field = self.focused_field.prev();
                None
            },
            KeyCodeKind::Down | KeyCodeKind::Tab => {
                self.focused_field = self.focused_field.next();
                None
            },
            KeyCodeKind::Enter => Some(UIResult::Login(self.login_request())),
            _ => {
                self.handle_field_key(key, event);
                None
            },
        }
    }

    fn handle_field_key(&mut self, key: KeyPress, event: &Event)
        ensures
            field_key_handled(*old(self), *final(self), key),
            final(self).auth_error == old(self).auth_error,
    {
        self.pam_messages.clear();
        match self.focused_field {
            Field::Session => match key.code {
                KeyCodeKind::Left => self.change_session(-1),
                KeyCodeKind::Right => self.change_session(1),
                _ => {
                    self.custom_session = true;
                    edit_input(&mut self.session_input, key, event);
                },
            },
            Field::User => match key.code {
                KeyCodeKind::Left => self.change_user(-1),
                KeyCodeKind::Right => self.change_user(1),
                _ => {
                    self.custom_user = true;
                    edit_input(&mut self.user_input, key, event);
                },
            },
            Field::Password => {
                edit_input(&mut self.password_input, key, event);
            },
        }
    }
}

/// A step of `dir` from a choice in range lands on a choice in range.
pub proof fn law_cycle_stays_in_range(idx: int, len: int, dir: i32)
    requires
        0 <= idx < len,
    ensures
        0 <= cycled(idx, len, dir) < len,
{
}

/// A step forward undoes a step backward and the other way round.
pub proof fn law_cycle_steps_undo(idx: int, len: int)
    requires
        0 <= idx < len,
    ensures
        cycled(cycled(idx, len, 1i32), len, -1i32) == idx,
        cycled(cycled(idx, len, -1i32), len, 1i32) == idx,
{
    if idx + 1 < len {
        assert((idx + 1) % len == idx + 1) by (nonlinear_arith)
            requires
                0 <= idx + 1 < len,
        ;
    } else {
        assert((idx + 1) % len == 0) by (nonlinear_arith)
            requires
                idx + 1 == len,
                len > 0,
        ;
    }
    if idx >= 1 {
        assert(idx % len == idx) by (nonlinear_arith)
            requires
                0 <= idx < len,
        ;
    } else {
        assert(len % len == 0) by (nonlinear_arith)
            requires
                len > 0,
        ;
    }
}

// ---------------------------------------------------------------------------
// Fitting text into a width
// ---------------------------------------------------------------------------

/// The display width ratatui's `Span::width` gives for a span of `s`.
pub uninterp spec fn span_width(s: Seq<char>) -> nat;

/// Calls `Span::width` on `Span::raw(s)`: the number of terminal columns
/// the text takes, as the unicode-width tables say. It is named
/// `span_width` of the text; the tables are not restated here.
#[verifier::external_body]
fn text_width(s: &str) -> (r: usize)
    ensures
        r == span_width(s@),
{
    ratatui::text::Span::raw(s).width()
}

fn char_width(c: char) -> (r: usize)
    ensures
        r == span_width(seq![c]),
{
    let mut t = String::new();
    t.push(c);
    assert(t@ =~= seq![c]);
    text_width(t.as_str())
}

/// The length of the prefix of `s` from position `i` on that fits in `max`
/// columns when `w` are used already: characters are taken while the
/// running width, each counted alone, stays within `max`.
pub open spec fn fit_scan(s: Seq<char>, i: int, w: int, max: int) -> int
    decreases s.len() - i,
{
    if i < 0 || i >= s.len() {
        i
    } else if w + span_width(seq![s[i]]) <= max {
        fit_scan(s, i + 1, w + span_width(seq![s[i]]), max)
    } else {
        i
    }
}

/// `s` shortened to `max` columns: as it is when it fits; else the part
/// that fits before `ellipsis`, or when not even `ellipsis` fits, the part
/// of `ellipsis` that does.
pub open spec fn truncate_spec(s: Seq<char>, max: int, ellipsis: Seq<char>) -> Seq<char> {
    if span_width(s) <= max {
        s
    } else if max == 0 {
        Seq::empty()
    } else if span_width(ellipsis) >= max {
        ellipsis.take(fit_scan(ellipsis, 0, 0, max))
    } else {
        s.take(fit_scan(s, 0, 0, max - span_width(ellipsis))) + ellipsis
    }
}

fn fit_len(cs: &[char], max: usize) -> (r: usize)
    ensures
        r == fit_scan(cs@, 0, 0, max as int),
        r <= cs@.len(),
{
    let mut i: usize = 0;
    let mut w: usize = 0;
    while i < cs.len()
        invariant
            i <= cs@.len(),
            w <= max,
            fit_scan(cs@, i as int, w as int, max as int) == fit_scan(cs@, 0, 0, max as int),
        decreases cs@.len() - i,
    {
        let cw = char_width(cs[i]);
        if cw <= max - w {
            w = w + cw;
            i = i + 1;
        } else {
            return i;
        }
    }
    i
}

/// Shortens `s` to at most `max_width` columns, ending it with `ellipsis`
/// when it is cut.
pub fn truncate_str(s: &str, max_width: usize, ellipsis: &str) -> (r: String)
    ensures
        r@ == truncate_spec(s@, max_width as int, ellipsis@),
{
    if text_width(s) <= max_width {
        return text::str_to_string(s);
    }
    if max_width == 0 {
        return String::new();
    }
    let ellipsis_width = text_width(ellipsis);
    if ellipsis_width >= max_width {
        let e = text::chars_of(ellipsis);
        let n = fit_len(e.as_slice(), max_width);
        return text::string_of_range(e.as_slice(), 0, n);
    }
    let x = text::chars_of(s);
    let n = fit_len(x.as_slice(), max_width - ellipsis_width);
    let mut r = text::string_of_range(x.as_slice(), 0, n);
    text::push_str(&mut r, ellipsis);
    r
}

// ---------------------------------------------------------------------------
// What the screen draws
// ---------------------------------------------------------------------------

/// The height of the console panel.
pub const CONSOLE_H: u16 = 8;

/// The heights of the login box and of everything drawn: the box is 12
/// rows, 2 more with PAM messages; the console panel adds a blank row and
/// its own rows below it.
pub fn layout_heights(show_console: bool, show_messages: bool) -> (r: (u16, u16))
    ensures
        r.0 == 12 + if show_messages {
            2int
        } else {
            0int
        },
        r.1 == r.0 + if show_console {
            1 + CONSOLE_H
        } else {
            0int
        },
{
    let box_h: u16 = 12 + if show_messages {
        2
    } else {
        0
    };
    let total_h: u16 = if show_console {
        box_h + 1 + CONSOLE_H
    } else {
        box_h
    };
    (box_h, total_h)
}

/// The heights of the rows inside the login box: the header, the session,
/// user and password fields, and the PAM messages when there are any.
pub fn layout_rows(show_messages: bool) -> (r: Vec<u16>)
    ensures
        r@ == if show_messages {
            seq![3u16, 2u16, 2u16, 3u16, 2u16]
        } else {
            seq![3u16, 2u16, 2u16, 3u16]
        },
{
    let mut r: Vec<u16> = Vec::new();
    r.push(3);
    r.push(2);
    r.push(2);
    r.push(3);
    if show_messages {
        r.push(2);
    }
    r
}

/// How a console line is coloured, by the first level word it holds.
#[derive(Debug, Clone, Copy, PartialEq, Eq, Structural)]
pub enum ConsoleLevel {
    Error,
    Warn,
    Info,
    Debug,
    Plain,
}

pub open spec fn console_level_spec(line: Seq<char>) -> ConsoleLevel {
    if text::contains_seq(line, "ERROR"@) {
        ConsoleLevel::Error
    } else if text::contains_seq(line, "WARN"@) {
        ConsoleLevel::Warn
    } else if text::contains_seq(line, "INFO"@) {
        ConsoleLevel::Info
    } else if text::contains_seq(line, "DEBUG"@) {
        ConsoleLevel::Debug
    } else {
        ConsoleLevel::Plain
    }
}

pub fn console_line_level(line: &str) -> (r: ConsoleLevel)
    ensures
        r == console_level_spec(line@),
{
    if text::contains_str(line, "ERROR") {
        ConsoleLevel::Error
    } else if text::contains_str(line, "WARN") {
        ConsoleLevel::Warn
    } else if text::contains_str(line, "INFO") {
        ConsoleLevel::Info
    } else if text::contains_str(line, "DEBUG") {
        ConsoleLevel::Debug
    } else {
        ConsoleLevel::Plain
    }
}

/// How many of the oldest console lines are left out so that the newest
/// fill a panel of `panel_height` rows, two of which are its border.
pub fn console_skip(line_count: usize, panel_height: u16) -> (r: usize)
    ensures
        r == if line_count > panel_height - 2 {
            line_count - (if panel_height >= 2 {
                panel_height - 2
            } else {
                0int
            })
        } else {
            0int
        },
{
    let visible: usize = if panel_height >= 2 {
        (panel_height - 2) as usize
    } else {
        0
    };
    if line_count > visible {
        line_count - visible
    } else {
        0
    }
}

/// The hotkeys listed at the top of the screen, in order, each with its
/// label: poweroff, reboot, FIDO (`fido` unless a label is set) and theme
/// (`theme` unless a label is set), each only when it has a key.
pub open spec fn hotkey_hints_spec(c: Config) -> Seq<(Seq<char>, Seq<char>)> {
    let fido_label = match c.strings.f_fido {
        Some(l) => l@,
        None => "fido"@,
    };
    let theme_label = match c.strings.f_theme {
        Some(l) => l@,
        None => "theme"@,
    };
    hint(c.functions.poweroff, c.strings.f_poweroff@) + hint(c.functions.reboot, c.strings.f_reboot@)
        + hint(c.functions.fido, fido_label) + hint(c.functions.theme, theme_label)
}

pub open spec fn hint(key: Option<String>, label: Seq<char>) -> Seq<(Seq<char>, Seq<char>)> {
    match key {
        Some(k) => seq![(label, k@)],
        None => Seq::empty(),
    }
}

pub open spec fn hints_view(v: Seq<(String, String)>) -> Seq<(Seq<char>, Seq<char>)> {
    v.map_values(|p: (String, String)| (p.0@, p.1@))
}

fn push_hint(v: &mut Vec<(String, String)>, key: &Option<String>, label: &str)
    ensures
        hints_view(final(v)@) == hints_view(old(v)@) + hint(*key, label@),
{
    let ghost before = v@;
    match key {
        Some(k) => {
            v.push((text::str_to_string(label), k.clone()));
            assert(hints_view(v@) =~= hints_view(before) + hint(*key, label@));
        },
        None => {
            assert(hints_view(v@) =~= hints_view(before) + hint(*key, label@));
        },
    }
}

impl UI {
    /// The hotkey labels and keys drawn at the top of the screen.
    pub fn hotkey_hints(&self) -> (r: Vec<(String, String)>)
        ensures
            hints_view(r@) == hotkey_hints_spec(self.config),
    {
        let mut v: Vec<(String, String)> = Vec::new();
        assert(hints_view(v@) =~= Seq::<(Seq<char>, Seq<char>)>::empty());
        push_hint(&mut v, &self.config.functions.poweroff, self.config.strings.f_poweroff.as_str());
        push_hint(&mut v, &self.config.functions.reboot, self.config.strings.f_reboot.as_str());
        let fido_label = match &self.config.strings.f_fido {
            Some(l) => l.as_str(),
            None => "fido",
        };
        push_hint(&mut v, &self.config.functions.fido, fido_label);
        let theme_label = match &self.config.strings.f_theme {
            Some(l) => l.as_str(),
            None => "theme",
        };
        push_hint(&mut v, &self.config.functions.theme, theme_label);
        v
    }

    /// Whether the console panel is drawn: it is configured and a console
    /// buffer is attached.
    pub fn show_console(&self) -> (r: bool)
        ensures
            r == (self.config.behavior.show_console && self.has_console),
    {
        self.config.behavior.show_console && self.has_console
    }

    /// Whether the PAM messages row is drawn.
    pub fn show_messages(&self) -> (r: bool)
        ensures
            r == (self.pam_messages@.len() > 0),
    {
        self.pam_messages.len() > 0
    }
}

/// No hotkey is an arrow key, Enter or a character: hotkeys are function
/// keys.
pub proof fn law_hotkeys_are_function_keys(f: Functions, code: KeyCodeKind)
    ensures
        !(code is F) ==> hotkey_action(f, code) is None,
{
}

/// Up and Shift+Tab move the focus up.
pub open spec fn moves_focus_up(k: KeyPress) -> bool {
    k.code == KeyCodeKind::Up || k.code == KeyCodeKind::BackTab
}

/// Down and Tab move the focus down.
pub open spec fn moves_focus_down(k: KeyPress) -> bool {
    k.code == KeyCodeKind::Down || k.code == KeyCodeKind::Tab
}

/// Moving the focus down and then up (Down or Tab, then Up or Shift+Tab),
/// or up and then down, brings it back to the field it was on and leaves
/// the selections and inputs as they were.
pub proof fn law_focus_keys_undo(
    a: UI,
    b: UI,
    c: UI,
    first: KeyPress,
    second: KeyPress,
    r1: Option<UIResult>,
    r2: Option<UIResult>,
)
    requires
        (moves_focus_up(first) && moves_focus_down(second)) || (moves_focus_down(first)
            && moves_focus_up(second)),
        key_handled(a, b, first, r1),
        key_handled(b, c, second, r2),
    ensures
        c.focused_field == a.focused_field,
        same_choices(a, c),
        same_setup(a, c),
        r1 is None && r2 is None,
{
}

/// Stepping to the next session and back (or back and forward) returns to
/// the session that was selected, when it was one of the choices.
pub proof fn law_session_steps_undo(a: UI, b: UI, c: UI, dir: i32)
    requires
        dir == 1 || dir == -1,
        0 <= a.selected_session_idx < session_count(a),
        session_changed(a, b, dir),
        session_changed(b, c, -dir as i32),
    ensures
        c.selected_session_idx == a.selected_session_idx,
        !c.custom_session,
{
    law_cycle_steps_undo(a.selected_session_idx as int, session_count(a));
}

/// Stepping to the next user and back (or back and forward) returns to the
/// user that was selected, when it was one of the users.
pub proof fn law_user_steps_undo(a: UI, b: UI, c: UI, dir: i32)
    requires
        dir == 1 || dir == -1,
        0 <= a.selected_user_idx < a.users@.len(),
        user_changed(a, b, dir),
        user_changed(b, c, -dir as i32),
    ensures
        c.selected_user_idx == a.selected_user_idx,
        !c.custom_user,
{
    law_cycle_steps_undo(a.selected_user_idx as int, a.users@.len() as int);
}

// ---------------------------------------------------------------------------
// Where things are drawn
// ---------------------------------------------------------------------------

/// A rectangle of terminal cells.
#[derive(Debug, Clone, Copy, PartialEq, Eq, Structural)]
pub struct Area {
    pub x: u16,
    pub y: u16,
    pub width: u16,
    pub height: u16,
}

/// The areas ratatui's `Layout::split` gives when `area` is cut, top to
/// bottom (`vertical`) or left to right, into pieces of the fixed
/// `lengths`, packed from the start or, when `centered`, in the middle.
pub uninterp spec fn split_lengths(area: Area, lengths: Seq<u16>, vertical: bool, centered: bool) -> Seq<Area>;

/// Calls ratatui's `Layout::split` with a `Constraint::Length` for each of
/// `lengths`, flexed to the centre when `centered`. It gives one area per
/// length, as the layout's source shows; where the constraint solver puts
/// them is named `split_lengths` and not restated here.
#[verifier::external_body]
fn split_area(area: Area, lengths: &[u16], vertical: bool, centered: bool) -> (r: Vec<Area>)
    ensures
        r@ == split_lengths(area, lengths@, vertical, centered),
        r@.len() == lengths@.len(),
{
    let rect = Rect { x: area.x, y: area.y, width: area.width, height: area.height };
    let direction = if vertical { Direction::Vertical } else { Direction::Horizontal };
    let layout = Layout::new(direction, lengths.iter().map(|&l| Constraint::Length(l)));
    let layout = if centered { layout.flex(Flex::Center) } else { layout };
    layout.split(rect).iter().map(|r| Area { x: r.x, y: r.y, width: r.width, height: r.height }).collect()
}

/// `Rect::inner`: the area inside a margin of `h` columns on the left and
/// right and `v` rows above and below; an empty area at the origin when the
/// margins do not fit. Coordinates saturate at `u16::MAX`.
pub open spec fn inner_spec(a: Area, h: u16, v: u16) -> Area {
    let dh = if 2 * h > u16::MAX {
        u16::MAX as int
    } else {
        2 * h
    };
    let dv = if 2 * v > u16::MAX {
        u16::MAX as int
    } else {
        2 * v
    };
    if a.width < dh || a.height < dv {
        Area { x: 0, y: 0, width: 0, height: 0 }
    } else {
        Area {
            x: if a.x + h > u16::MAX {
                u16::MAX
            } else {
                (a.x + h) as u16
            },
            y: if a.y + v > u16::MAX {
                u16::MAX
            } else {
                (a.y + v) as u16
            },
            width: (a.width - dh) as u16,
            height: (a.height - dv) as u16,
        }
    }
}

fn saturating_add_u16(a: u16, b: u16) -> (r: u16)
    ensures
        r == if a + b > u16::MAX {
            u16::MAX
        } else {
            (a + b) as u16
        },
{
    if a as u32 + b as u32 > 0xFFFF {
        0xFFFF
    } else {
        a + b
    }
}

pub fn inner_area(a: Area, h: u16, v: u16) -> (r: Area)
    ensures
        r == inner_spec(a, h, v),
{
    let dh: u16 = if h as u32 * 2 > 0xFFFF {
        0xFFFF
    } else {
        h * 2
    };
    let dv: u16 = if v as u32 * 2 > 0xFFFF {
        0xFFFF
    } else {
        v * 2
    };
    if a.width < dh || a.height < dv {
        Area { x: 0, y: 0, width: 0, height: 0 }
    } else {
        Area {
            x: saturating_add_u16(a.x, h),
            y: saturating_add_u16(a.y, v),
            width: a.width - dh,
            height: a.height - dv,
        }
    }
}

/// The layout of the screen in `area`: the login box (60 columns wide,
/// centred with the console panel below it when that is shown), the rows
/// inside the box, and the console panel.
pub open spec fn layout_spec(area: Area, show_console: bool, show_messages: bool) -> (
    Area,
    Seq<Area>,
    Option<Area>,
) {
    let box_h: u16 = if show_messages {
        14
    } else {
        12
    };
    let total_h: u16 = if show_console {
        (box_h + 1 + CONSOLE_H) as u16
    } else {
        box_h
    };
    let rows: Seq<u16> = if show_messages {
        seq![3u16, 2u16, 2u16, 3u16, 2u16]
    } else {
        seq![3u16, 2u16, 2u16, 3u16]
    };
    let vc = split_lengths(area, seq![total_h], true, true)[0];
    let bx = split_lengths(vc, seq![60u16], false, true)[0];
    let login = if show_console {
        split_lengths(bx, seq![box_h, 1u16, CONSOLE_H], true, false)[0]
    } else {
        bx
    };
    let console = if show_console {
        Some(split_lengths(bx, seq![box_h, 1u16, CONSOLE_H], true, false)[2])
    } else {
        None
    };
    (login, split_lengths(inner_spec(login, 2, 1), rows, true, false), console)
}

impl UI {
    /// Where the login box, its rows and the console panel go in `area`.
    pub fn layout(area: Area, show_console: bool, show_messages: bool) -> (r: (
        Area,
        Vec<Area>,
        Option<Area>,
    ))
        ensures
            (r.0, r.1@, r.2) == layout_spec(area, show_console, show_messages),
            r.1@.len() == if show_messages {
                5int
            } else {
                4int
            },
    {
        let (box_h, total_h) = layout_heights(show_console, show_messages);
        let mut total: Vec<u16> = Vec::new();
        total.push(total_h);
        let vc = split_area(area, total.as_slice(), true, true)[0];
        let mut width: Vec<u16> = Vec::new();
        width.push(60);
        let bx = split_area(vc, width.as_slice(), false, true)[0];
        let (login, console) = if show_console {
            let mut parts: Vec<u16> = Vec::new();
            parts.push(box_h);
            parts.push(1);
            parts.push(CONSOLE_H);
            let v = split_area(bx, parts.as_slice(), true, false);
            assert(parts@ =~= seq![box_h, 1u16, CONSOLE_H]);
            (v[0], Some(v[2]))
        } else {
            (bx, None)
        };
        let inner = inner_area(login, 2, 1);
        let rows = layout_rows(show_messages);
        let cells = split_area(inner, rows.as_slice(), true, false);
        assert(total@ =~= seq![total_h]);
        assert(width@ =~= seq![60u16]);
        (login, cells, console)
    }
}

} // verus!
