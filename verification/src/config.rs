//! The configuration, its defaults, and the overrides that the environment
//! and the command line apply to it.
use vstd::prelude::*;

use crate::colors::{Colors, StyleView};
use crate::colors;
use crate::overrides::{OverrideTable, OverrideValue, OverrideView};
use crate::overrides;
use crate::text;

verus! {

#[derive(Debug, Clone, Copy, PartialEq, Eq, Structural)]
pub enum BoxType {
    Border,
    Borderless,
    Rounded,
    Block,
}

impl Default for BoxType {
    fn default() -> (r: Self)
        ensures
            r == BoxType::Border,
    {
        BoxType::Border
    }
}

/// The box type a configuration value names: `border` (also `plain` and
/// `default`), `none`, `rounded` or `block`, in lower case.
pub open spec fn box_type_of(s: Seq<char>) -> Option<BoxType> {
    if s == "border"@ || s == "plain"@ || s == "default"@ {
        Some(BoxType::Border)
    } else if s == "none"@ {
        Some(BoxType::Borderless)
    } else if s == "rounded"@ {
        Some(BoxType::Rounded)
    } else if s == "block"@ {
        Some(BoxType::Block)
    } else {
        None
    }
}

pub fn parse_box_type(s: &str) -> (r: Option<BoxType>)
    ensures
        r == box_type_of(s@),
{
    if text::str_equal(s, "border") || text::str_equal(s, "plain") || text::str_equal(s, "default") {
        Some(BoxType::Border)
    } else if text::str_equal(s, "none") {
        Some(BoxType::Borderless)
    } else if text::str_equal(s, "rounded") {
        Some(BoxType::Rounded)
    } else if text::str_equal(s, "block") {
        Some(BoxType::Block)
    } else {
        None
    }
}

#[derive(Debug, Clone)]
pub struct Functions {
    pub poweroff: Option<String>,
    pub reboot: Option<String>,
    pub fido: Option<String>,
    pub theme: Option<String>,
}

impl Default for Functions {
    fn default() -> (r: Self)
        ensures
            colors::opt_string_view(r.poweroff) == Some("F1"@),
            colors::opt_string_view(r.reboot) == Some("F2"@),
            r.fido.is_none(),
            colors::opt_string_view(r.theme) == Some("F3"@),
    {
        Self {
            poweroff: Some(text::str_to_string("F1")),
            reboot: Some(text::str_to_string("F2")),
            fido: None,
            theme: Some(text::str_to_string("F3")),
        }
    }
}

#[derive(Debug, Clone)]
pub struct Strings {
    pub f_poweroff: String,
    pub f_reboot: String,
    pub f_fido: Option<String>,
    pub f_theme: Option<String>,
    pub e_user: String,
    pub e_passwd: String,
    pub s_wayland: String,
    pub s_xorg: String,
    pub s_shell: String,
    pub opts_pre: String,
    pub opts_post: String,
    pub ellipsis: String,
}

impl Default for Strings {
    fn default() -> (r: Self)
        ensures
            r.f_poweroff@ == "poweroff"@,
            r.f_reboot@ == "reboot"@,
            colors::opt_string_view(r.f_fido) == Some("fido"@),
            colors::opt_string_view(r.f_theme) == Some("theme"@),
            r.e_user@ == "user"@,
            r.e_passwd@ == "password"@,
            r.s_wayland@ == "wayland"@,
            r.s_xorg@ == "xorg"@,
            r.s_shell@ == "shell"@,
            r.opts_pre@ == "< "@,
            r.opts_post@ == " >"@,
            r.ellipsis@ == "\u{2026}"@,
    {
        Self {
            f_poweroff: text::str_to_string("poweroff"),
            f_reboot: text::str_to_string("reboot"),
            f_fido: Some(text::str_to_string("fido")),
            f_theme: Some(text::str_to_string("theme")),
            e_user: text::str_to_string("user"),
            e_passwd: text::str_to_string("password"),
            s_wayland: text::str_to_string("wayland"),
            s_xorg: text::str_to_string("xorg"),
            s_shell: text::str_to_string("shell"),
            opts_pre: text::str_to_string("< "),
            opts_post: text::str_to_string(" >"),
            ellipsis: text::str_to_string("\u{2026}"),
        }
    }
}

#[derive(Debug, Clone)]
pub struct Behavior {
    pub box_type: BoxType,
    pub include_defshell: bool,
    pub show_console: bool,
    pub source: Vec<String>,
    pub user_source: Vec<String>,
    pub timefmt: String,
    pub refresh_rate: u64,
    pub bypass_shell_login: bool,
    pub show_theme: bool,
}

impl Default for Behavior {
    fn default() -> (r: Self)
        ensures
            r.box_type == BoxType::Border,
            r.include_defshell,
            !r.show_console,
            r.source@.len() == 0,
            r.user_source@.len() == 0,
            r.timefmt@ == "%Y-%m-%d %H:%M:%S"@,
            r.refresh_rate == 100,
            !r.bypass_shell_login,
            !r.show_theme,
    {
        Self {
            box_type: BoxType::Border,
            include_defshell: true,
            show_console: false,
            source: Vec::new(),
            user_source: Vec::new(),
            timefmt: text::str_to_string("%Y-%m-%d %H:%M:%S"),
            refresh_rate: 100,
            bypass_shell_login: false,
            show_theme: false,
        }
    }
}

#[derive(Debug, Clone)]
pub struct LoggingConfig {
    pub file: String,
    pub level: String,
    pub stdout: bool,
}

impl Default for LoggingConfig {
    fn default() -> (r: Self)
        ensures
            r.file@ == "/tmp/rulmee.log"@,
            r.level@ == "debug"@,
            !r.stdout,
    {
        Self {
            file: text::str_to_string("/tmp/rulmee.log"),
            level: text::str_to_string("debug"),
            stdout: false,
        }
    }
}

#[derive(Debug, Clone)]
pub struct AuthConfig {
    pub pam_service: String,
}

impl Default for AuthConfig {
    fn default() -> (r: Self)
        ensures
            r.pam_service@ == "login"@,
    {
        Self { pam_service: text::str_to_string("login") }
    }
}

#[derive(Debug, Clone)]
pub struct Config {
    pub colors: Colors,
    pub functions: Functions,
    pub strings: Strings,
    pub behavior: Behavior,
    pub logging: LoggingConfig,
    pub auth: AuthConfig,
}

// ---------------------------------------------------------------------------
// The configuration as a list of fields
// ---------------------------------------------------------------------------

/// The value of one configuration field, as plain values.
pub enum FieldView {
    Text(Seq<char>),
    OptText(Option<Seq<char>>),
    Flag(bool),
    Number(u64),
    List(Seq<Seq<char>>),
    Boxed(BoxType),
    Style(StyleView),
}

/// The number of fields of a configuration.
pub open spec fn field_count() -> nat {
    44
}

/// The position of a field among the fields of a configuration, from its
/// section and key: the fifteen colours, then `functions` (4), `strings`
/// (12), `behavior` (9), `logging` (3) and `auth` (1), each in field order.
pub open spec fn field_index(section: Seq<char>, key: Seq<char>) -> Option<int> {
    if section == "colors"@ {
        colors::color_key_index(key)
    } else if section == "functions"@ {
        if key == "poweroff"@ {
            Some(15)
        } else if key == "reboot"@ {
            Some(16)
        } else if key == "fido"@ {
            Some(17)
        } else if key == "theme"@ {
            Some(18)
        } else {
            None
        }
    } else if section == "strings"@ {
        if key == "f_poweroff"@ {
            Some(19)
        } else if key == "f_reboot"@ {
            Some(20)
        } else if key == "f_fido"@ {
            Some(21)
        } else if key == "f_theme"@ {
            Some(22)
        } else if key == "e_user"@ {
            Some(23)
        } else if key == "e_passwd"@ {
            Some(24)
        } else if key == "s_wayland"@ {
            Some(25)
        } else if key == "s_xorg"@ {
            Some(26)
        } else if key == "s_shell"@ {
            Some(27)
        } else if key == "opts_pre"@ {
            Some(28)
        } else if key == "opts_post"@ {
            Some(29)
        } else if key == "ellipsis"@ {
            Some(30)
        } else {
            None
        }
    } else if section == "behavior"@ {
        if key == "box_type"@ {
            Some(31)
        } else if key == "include_defshell"@ {
            Some(32)
        } else if key == "show_console"@ {
            Some(33)
        } else if key == "source"@ {
            Some(34)
        } else if key == "user_source"@ {
            Some(35)
        } else if key == "timefmt"@ {
            Some(36)
        } else if key == "refresh_rate"@ {
            Some(37)
        } else if key == "bypass_shell_login"@ {
            Some(38)
        } else if key == "show_theme"@ {
            Some(39)
        } else {
            None
        }
    } else if section == "logging"@ {
        if key == "file"@ {
            Some(40)
        } else if key == "level"@ {
            Some(41)
        } else if key == "stdout"@ {
            Some(42)
        } else {
            None
        }
    } else if section == "auth"@ {
        if key == "pam_service"@ {
            Some(43)
        } else {
            None
        }
    } else {
        None
    }
}

/// The field of `c` that `key` of `section` names: the struct field of
/// that name, as a field value; `None` where no field has that name.
pub open spec fn named_field(c: Config, section: Seq<char>, key: Seq<char>) -> Option<FieldView> {
    if section == "colors"@ {
        if key == "bg"@ {
            Some(FieldView::Style(c.colors.bg@))
        } else if key == "fg"@ {
            Some(FieldView::Style(c.colors.fg@))
        } else if key == "err"@ {
            Some(FieldView::Style(c.colors.err@))
        } else if key == "warn"@ {
            Some(FieldView::Style(c.colors.warn@))
        } else if key == "s_wayland"@ {
            Some(FieldView::Style(c.colors.s_wayland@))
        } else if key == "s_xorg"@ {
            Some(FieldView::Style(c.colors.s_xorg@))
        } else if key == "s_shell"@ {
            Some(FieldView::Style(c.colors.s_shell@))
        } else if key == "e_hostname"@ {
            Some(FieldView::Style(c.colors.e_hostname@))
        } else if key == "e_date"@ {
            Some(FieldView::Style(c.colors.e_date@))
        } else if key == "e_box"@ {
            Some(FieldView::Style(c.colors.e_box@))
        } else if key == "e_header"@ {
            Some(FieldView::Style(c.colors.e_header@))
        } else if key == "e_user"@ {
            Some(FieldView::Style(c.colors.e_user@))
        } else if key == "e_passwd"@ {
            Some(FieldView::Style(c.colors.e_passwd@))
        } else if key == "e_badpasswd"@ {
            Some(FieldView::Style(c.colors.e_badpasswd@))
        } else if key == "e_key"@ {
            Some(FieldView::Style(c.colors.e_key@))
        } else {
            None
        }
    } else if section == "functions"@ {
        if key == "poweroff"@ {
            Some(FieldView::OptText(colors::opt_string_view(c.functions.poweroff)))
        } else if key == "reboot"@ {
            Some(FieldView::OptText(colors::opt_string_view(c.functions.reboot)))
        } else if key == "fido"@ {
            Some(FieldView::OptText(colors::opt_string_view(c.functions.fido)))
        } else if key == "theme"@ {
            Some(FieldView::OptText(colors::opt_string_view(c.functions.theme)))
        } else {
            None
        }
    } else if section == "strings"@ {
        if key == "f_poweroff"@ {
            Some(FieldView::Text(c.strings.f_poweroff@))
        } else if key == "f_reboot"@ {
            Some(FieldView::Text(c.strings.f_reboot@))
        } else if key == "f_fido"@ {
            Some(FieldView::OptText(colors::opt_string_view(c.strings.f_fido)))
        } else if key == "f_theme"@ {
            Some(FieldView::OptText(colors::opt_string_view(c.strings.f_theme)))
        } else if key == "e_user"@ {
            Some(FieldView::Text(c.strings.e_user@))
        } else if key == "e_passwd"@ {
            Some(FieldView::Text(c.strings.e_passwd@))
        } else if key == "s_wayland"@ {
            Some(FieldView::Text(c.strings.s_wayland@))
        } else if key == "s_xorg"@ {
            Some(FieldView::Text(c.strings.s_xorg@))
        } else if key == "s_shell"@ {
            Some(FieldView::Text(c.strings.s_shell@))
        } else if key == "opts_pre"@ {
            Some(FieldView::Text(c.strings.opts_pre@))
        } else if key == "opts_post"@ {
            Some(FieldView::Text(c.strings.opts_post@))
        } else if key == "ellipsis"@ {
            Some(FieldView::Text(c.strings.ellipsis@))
        } else {
            None
        }
    } else if section == "behavior"@ {
        if key == "box_type"@ {
            Some(FieldView::Boxed(c.behavior.box_type))
        } else if key == "include_defshell"@ {
            Some(FieldView::Flag(c.behavior.include_defshell))
        } else if key == "show_console"@ {
            Some(FieldView::Flag(c.behavior.show_console))
        } else if key == "source"@ {
            Some(FieldView::List(c.behavior.source.deep_view()))
        } else if key == "user_source"@ {
            Some(FieldView::List(c.behavior.user_source.deep_view()))
        } else if key == "timefmt"@ {
            Some(FieldView::Text(c.behavior.timefmt@))
        } else if key == "refresh_rate"@ {
            Some(FieldView::Number(c.behavior.refresh_rate))
        } else if key == "bypass_shell_login"@ {
            Some(FieldView::Flag(c.behavior.bypass_shell_login))
        } else if key == "show_theme"@ {
            Some(FieldView::Flag(c.behavior.show_theme))
        } else {
            None
        }
    } else if section == "logging"@ {
        if key == "file"@ {
            Some(FieldView::Text(c.logging.file@))
        } else if key == "level"@ {
            Some(FieldView::Text(c.logging.level@))
        } else if key == "stdout"@ {
            Some(FieldView::Flag(c.logging.stdout))
        } else {
            None
        }
    } else if section == "auth"@ {
        if key == "pam_service"@ {
            Some(FieldView::Text(c.auth.pam_service@))
        } else {
            None
        }
    } else {
        None
    }
}

/// The section and key of the field at position `i`.
spec fn field_name(i: int) -> (Seq<char>, Seq<char>) {
    if i == 0 {
        ("colors"@, "bg"@)
    } else if i == 1 {
        ("colors"@, "fg"@)
    } else if i == 2 {
        ("colors"@, "err"@)
    } else if i == 3 {
        ("colors"@, "warn"@)
    } else if i == 4 {
        ("colors"@, "s_wayland"@)
    } else if i == 5 {
        ("colors"@, "s_xorg"@)
    } else if i == 6 {
        ("colors"@, "s_shell"@)
    } else if i == 7 {
        ("colors"@, "e_hostname"@)
    } else if i == 8 {
        ("colors"@, "e_date"@)
    } else if i == 9 {
        ("colors"@, "e_box"@)
    } else if i == 10 {
        ("colors"@, "e_header"@)
    } else if i == 11 {
        ("colors"@, "e_user"@)
    } else if i == 12 {
        ("colors"@, "e_passwd"@)
    } else if i == 13 {
        ("colors"@, "e_badpasswd"@)
    } else if i == 14 {
        ("colors"@, "e_key"@)
    } else if i == 15 {
        ("functions"@, "poweroff"@)
    } else if i == 16 {
        ("functions"@, "reboot"@)
    } else if i == 17 {
        ("functions"@, "fido"@)
    } else if i == 18 {
        ("functions"@, "theme"@)
    } else if i == 19 {
        ("strings"@, "f_poweroff"@)
    } else if i == 20 {
        ("strings"@, "f_reboot"@)
    } else if i == 21 {
        ("strings"@, "f_fido"@)
    } else if i == 22 {
        ("strings"@, "f_theme"@)
    } else if i == 23 {
        ("strings"@, "e_user"@)
    } else if i == 24 {
        ("strings"@, "e_passwd"@)
    } else if i == 25 {
        ("strings"@, "s_wayland"@)
    } else if i == 26 {
        ("strings"@, "s_xorg"@)
    } else if i == 27 {
        ("strings"@, "s_shell"@)
    } else if i == 28 {
        ("strings"@, "opts_pre"@)
    } else if i == 29 {
        ("strings"@, "opts_post"@)
    } else if i == 30 {
        ("strings"@, "ellipsis"@)
    } else if i == 31 {
        ("behavior"@, "box_type"@)
    } else if i == 32 {
        ("behavior"@, "include_defshell"@)
    } else if i == 33 {
        ("behavior"@, "show_console"@)
    } else if i == 34 {
        ("behavior"@, "source"@)
    } else if i == 35 {
        ("behavior"@, "user_source"@)
    } else if i == 36 {
        ("behavior"@, "timefmt"@)
    } else if i == 37 {
        ("behavior"@, "refresh_rate"@)
    } else if i == 38 {
        ("behavior"@, "bypass_shell_login"@)
    } else if i == 39 {
        ("behavior"@, "show_theme"@)
    } else if i == 40 {
        ("logging"@, "file"@)
    } else if i == 41 {
        ("logging"@, "level"@)
    } else if i == 42 {
        ("logging"@, "stdout"@)
    } else if i == 43 {
        ("auth"@, "pam_service"@)
    } else {
        (Seq::empty(), Seq::empty())
    }
}

proof fn lemma_field_index_names(section: Seq<char>, key: Seq<char>)
    ensures
        match field_index(section, key) {
            Some(i) => 0 <= i < field_count() && field_name(i) == (section, key),
            None => true,
        },
{
}

proof fn lemma_config_fields(c: Config)
    ensures
        c@ == seq![
        FieldView::Style(c.colors.bg@),
        FieldView::Style(c.colors.fg@),
        FieldView::Style(c.colors.err@),
        FieldView::Style(c.colors.warn@),
        FieldView::Style(c.colors.s_wayland@),
        FieldView::Style(c.colors.s_xorg@),
        FieldView::Style(c.colors.s_shell@),
        FieldView::Style(c.colors.e_hostname@),
        FieldView::Style(c.colors.e_date@),
        FieldView::Style(c.colors.e_box@),
        FieldView::Style(c.colors.e_header@),
        FieldView::Style(c.colors.e_user@),
        FieldView::Style(c.colors.e_passwd@),
        FieldView::Style(c.colors.e_badpasswd@),
        FieldView::Style(c.colors.e_key@),
        FieldView::OptText(colors::opt_string_view(c.functions.poweroff)),
        FieldView::OptText(colors::opt_string_view(c.functions.reboot)),
        FieldView::OptText(colors::opt_string_view(c.functions.fido)),
        FieldView::OptText(colors::opt_string_view(c.functions.theme)),
        FieldView::Text(c.strings.f_poweroff@),
        FieldView::Text(c.strings.f_reboot@),
        FieldView::OptText(colors::opt_string_view(c.strings.f_fido)),
        FieldView::OptText(colors::opt_string_view(c.strings.f_theme)),
        FieldView::Text(c.strings.e_user@),
        FieldView::Text(c.strings.e_passwd@),
        FieldView::Text(c.strings.s_wayland@),
        FieldView::Text(c.strings.s_xorg@),
        FieldView::Text(c.strings.s_shell@),
        FieldView::Text(c.strings.opts_pre@),
        FieldView::Text(c.strings.opts_post@),
        FieldView::Text(c.strings.ellipsis@),
        FieldView::Boxed(c.behavior.box_type),
        FieldView::Flag(c.behavior.include_defshell),
        FieldView::Flag(c.behavior.show_console),
        FieldView::List(c.behavior.source.deep_view()),
        FieldView::List(c.behavior.user_source.deep_view()),
        FieldView::Text(c.behavior.timefmt@),
        FieldView::Number(c.behavior.refresh_rate),
        FieldView::Flag(c.behavior.bypass_shell_login),
        FieldView::Flag(c.behavior.show_theme),
        FieldView::Text(c.logging.file@),
        FieldView::Text(c.logging.level@),
        FieldView::Flag(c.logging.stdout),
        FieldView::Text(c.auth.pam_service@),
        ],
{
    assert(c@ =~= seq![
        FieldView::Style(c.colors.bg@),
        FieldView::Style(c.colors.fg@),
        FieldView::Style(c.colors.err@),
        FieldView::Style(c.colors.warn@),
        FieldView::Style(c.colors.s_wayland@),
        FieldView::Style(c.colors.s_xorg@),
        FieldView::Style(c.colors.s_shell@),
        FieldView::Style(c.colors.e_hostname@),
        FieldView::Style(c.colors.e_date@),
        FieldView::Style(c.colors.e_box@),
        FieldView::Style(c.colors.e_header@),
        FieldView::Style(c.colors.e_user@),
        FieldView::Style(c.colors.e_passwd@),
        FieldView::Style(c.colors.e_badpasswd@),
        FieldView::Style(c.colors.e_key@),
        FieldView::OptText(colors::opt_string_view(c.functions.poweroff)),
        FieldView::OptText(colors::opt_string_view(c.functions.reboot)),
        FieldView::OptText(colors::opt_string_view(c.functions.fido)),
        FieldView::OptText(colors::opt_string_view(c.functions.theme)),
        FieldView::Text(c.strings.f_poweroff@),
        FieldView::Text(c.strings.f_reboot@),
        FieldView::OptText(colors::opt_string_view(c.strings.f_fido)),
        FieldView::OptText(colors::opt_string_view(c.strings.f_theme)),
        FieldView::Text(c.strings.e_user@),
        FieldView::Text(c.strings.e_passwd@),
        FieldView::Text(c.strings.s_wayland@),
        FieldView::Text(c.strings.s_xorg@),
        FieldView::Text(c.strings.s_shell@),
        FieldView::Text(c.strings.opts_pre@),
        FieldView::Text(c.strings.opts_post@),
        FieldView::Text(c.strings.ellipsis@),
        FieldView::Boxed(c.behavior.box_type),
        FieldView::Flag(c.behavior.include_defshell),
        FieldView::Flag(c.behavior.show_console),
        FieldView::List(c.behavior.source.deep_view()),
        FieldView::List(c.behavior.user_source.deep_view()),
        FieldView::Text(c.behavior.timefmt@),
        FieldView::Number(c.behavior.refresh_rate),
        FieldView::Flag(c.behavior.bypass_shell_login),
        FieldView::Flag(c.behavior.show_theme),
        FieldView::Text(c.logging.file@),
        FieldView::Text(c.logging.level@),
        FieldView::Flag(c.logging.stdout),
        FieldView::Text(c.auth.pam_service@),
    ]);
}

proof fn lemma_names_colors(c: Config, section: Seq<char>, key: Seq<char>)
    requires
        section == "colors"@,
    ensures
        match named_field(c, section, key) {
            Some(f) => field_index(section, key) is Some && 0 <= field_index(section, key).unwrap()
                < c@.len() && c@[field_index(section, key).unwrap()] == f,
            None => field_index(section, key) is None,
        },
{
    reveal_strlit("colors");
    reveal_strlit("functions");
    reveal_strlit("strings");
    reveal_strlit("behavior");
    reveal_strlit("logging");
    reveal_strlit("auth");
    lemma_config_fields(c);
}

proof fn lemma_names_functions(c: Config, section: Seq<char>, key: Seq<char>)
    requires
        section == "functions"@,
    ensures
        match named_field(c, section, key) {
            Some(f) => field_index(section, key) is Some && 0 <= field_index(section, key).unwrap()
                < c@.len() && c@[field_index(section, key).unwrap()] == f,
            None => field_index(section, key) is None,
        },
{
    reveal_strlit("colors");
    reveal_strlit("functions");
    reveal_strlit("strings");
    reveal_strlit("behavior");
    reveal_strlit("logging");
    reveal_strlit("auth");
    lemma_config_fields(c);
}

proof fn lemma_names_strings(c: Config, section: Seq<char>, key: Seq<char>)
    requires
        section == "strings"@,
    ensures
        match named_field(c, section, key) {
            Some(f) => field_index(section, key) is Some && 0 <= field_index(section, key).unwrap()
                < c@.len() && c@[field_index(section, key).unwrap()] == f,
            None => field_index(section, key) is None,
        },
{
    reveal_strlit("colors");
    reveal_strlit("functions");
    reveal_strlit("strings");
    reveal_strlit("behavior");
    reveal_strlit("logging");
    reveal_strlit("auth");
    lemma_config_fields(c);
}

proof fn lemma_names_behavior(c: Config, section: Seq<char>, key: Seq<char>)
    requires
        section == "behavior"@,
    ensures
        match named_field(c, section, key) {
            Some(f) => field_index(section, key) is Some && 0 <= field_index(section, key).unwrap()
                < c@.len() && c@[field_index(section, key).unwrap()] == f,
            None => field_index(section, key) is None,
        },
{
    reveal_strlit("colors");
    reveal_strlit("functions");
    reveal_strlit("strings");
    reveal_strlit("behavior");
    reveal_strlit("logging");
    reveal_strlit("auth");
    lemma_config_fields(c);
}

proof fn lemma_names_logging(c: Config, section: Seq<char>, key: Seq<char>)
    requires
        section == "logging"@,
    ensures
        match named_field(c, section, key) {
            Some(f) => field_index(section, key) is Some && 0 <= field_index(section, key).unwrap()
                < c@.len() && c@[field_index(section, key).unwrap()] == f,
            None => field_index(section, key) is None,
        },
{
    reveal_strlit("colors");
    reveal_strlit("functions");
    reveal_strlit("strings");
    reveal_strlit("behavior");
    reveal_strlit("logging");
    reveal_strlit("auth");
    lemma_config_fields(c);
}

proof fn lemma_names_auth(c: Config, section: Seq<char>, key: Seq<char>)
    requires
        section == "auth"@,
    ensures
        match named_field(c, section, key) {
            Some(f) => field_index(section, key) is Some && 0 <= field_index(section, key).unwrap()
                < c@.len() && c@[field_index(section, key).unwrap()] == f,
            None => field_index(section, key) is None,
        },
{
    reveal_strlit("colors");
    reveal_strlit("functions");
    reveal_strlit("strings");
    reveal_strlit("behavior");
    reveal_strlit("logging");
    reveal_strlit("auth");
    lemma_config_fields(c);
}

/// Each field is set by the section and key of its own name:
/// `field_index` finds, for every name, the position in the configuration
/// of the struct field of that name, and nothing for any other name.
pub proof fn law_field_index_names_fields(c: Config, section: Seq<char>, key: Seq<char>)
    ensures
        match named_field(c, section, key) {
            Some(f) => field_index(section, key) is Some && 0 <= field_index(section, key).unwrap()
                < c@.len() && c@[field_index(section, key).unwrap()] == f,
            None => field_index(section, key) is None,
        },
{
    if section == "colors"@ {
        lemma_names_colors(c, section, key);
    } else if section == "functions"@ {
        lemma_names_functions(c, section, key);
    } else if section == "strings"@ {
        lemma_names_strings(c, section, key);
    } else if section == "behavior"@ {
        lemma_names_behavior(c, section, key);
    } else if section == "logging"@ {
        lemma_names_logging(c, section, key);
    } else if section == "auth"@ {
        lemma_names_auth(c, section, key);
    }
}

/// Applying a table whose only entry names a field, with a value of the
/// field's type, sets that field to the value and leaves every other field
/// as it was.
pub proof fn law_override_sets_the_named_field(
    c: Config,
    after: Config,
    section: Seq<char>,
    key: Seq<char>,
    v: OverrideView,
)
    requires
        named_field(c, section, key) is Some,
        convert(named_field(c, section, key).unwrap(), v) is Some,
        after@ == apply_overrides_spec(c@, seq![(section, key, v)]),
    ensures
        named_field(after, section, key) == convert(named_field(c, section, key).unwrap(), v),
        forall|s2: Seq<char>, k2: Seq<char>|
            !(s2 == section && k2 == key) ==> #[trigger] named_field(after, s2, k2) == named_field(
                c,
                s2,
                k2,
            ),
{
    law_field_index_names_fields(c, section, key);
    law_field_index_names_fields(after, section, key);
    lemma_field_index_names(section, key);
    let i = field_index(section, key).unwrap();
    let f = convert(named_field(c, section, key).unwrap(), v).unwrap();
    let es = seq![(section, key, v)];
    assert(entry_fits(c@, es[0]));
    assert(forall|k: int| 0 <= k < es.len() ==> entry_fits(c@, #[trigger] es[k]));
    assert(es.drop_last() =~= Seq::<(Seq<char>, Seq<char>, OverrideView)>::empty());
    assert(set_entries(c@, es.drop_last()) == c@);
    assert(after@ == c@.update(i, f));
    assert forall|s2: Seq<char>, k2: Seq<char>| !(s2 == section && k2 == key) implies #[trigger] named_field(
        after,
        s2,
        k2,
    ) == named_field(c, s2, k2) by {
        law_field_index_names_fields(c, s2, k2);
        law_field_index_names_fields(after, s2, k2);
        lemma_field_index_names(s2, k2);
        lemma_config_fields(c);
        lemma_config_fields(after);
    }
}

pub open spec fn style_fields(c: Seq<StyleView>) -> Seq<FieldView> {
    c.map_values(|s: StyleView| FieldView::Style(s))
}

impl View for Functions {
    type V = Seq<FieldView>;

    open spec fn view(&self) -> Seq<FieldView> {
        seq![
            FieldView::OptText(colors::opt_string_view(self.poweroff)),
            FieldView::OptText(colors::opt_string_view(self.reboot)),
            FieldView::OptText(colors::opt_string_view(self.fido)),
            FieldView::OptText(colors::opt_string_view(self.theme)),
        ]
    }
}

impl View for Strings {
    type V = Seq<FieldView>;

    open spec fn view(&self) -> Seq<FieldView> {
        seq![
            FieldView::Text(self.f_poweroff@),
            FieldView::Text(self.f_reboot@),
            FieldView::OptText(colors::opt_string_view(self.f_fido)),
            FieldView::OptText(colors::opt_string_view(self.f_theme)),
            FieldView::Text(self.e_user@),
            FieldView::Text(self.e_passwd@),
            FieldView::Text(self.s_wayland@),
            FieldView::Text(self.s_xorg@),
            FieldView::Text(self.s_shell@),
            FieldView::Text(self.opts_pre@),
            FieldView::Text(self.opts_post@),
            FieldView::Text(self.ellipsis@),
        ]
    }
}

impl View for Behavior {
    type V = Seq<FieldView>;

    open spec fn view(&self) -> Seq<FieldView> {
        seq![
            FieldView::Boxed(self.box_type),
            FieldView::Flag(self.include_defshell),
            FieldView::Flag(self.show_console),
            FieldView::List(self.source.deep_view()),
            FieldView::List(self.user_source.deep_view()),
            FieldView::Text(self.timefmt@),
            FieldView::Number(self.refresh_rate),
            FieldView::Flag(self.bypass_shell_login),
            FieldView::Flag(self.show_theme),
        ]
    }
}

impl View for LoggingConfig {
    type V = Seq<FieldView>;

    open spec fn view(&self) -> Seq<FieldView> {
        seq![
            FieldView::Text(self.file@),
            FieldView::Text(self.level@),
            FieldView::Flag(self.stdout),
        ]
    }
}

impl View for AuthConfig {
    type V = Seq<FieldView>;

    open spec fn view(&self) -> Seq<FieldView> {
        seq![FieldView::Text(self.pam_service@)]
    }
}

impl View for Config {
    /// The forty-four fields, in the order of `field_index`.
    type V = Seq<FieldView>;

    open spec fn view(&self) -> Seq<FieldView> {
        style_fields(self.colors@) + self.functions@ + self.strings@ + self.behavior@
            + self.logging@ + self.auth@
    }
}

/// The value a field takes from an override, when the override has the
/// field's type: text for text, text for an optional text, a boolean for a
/// flag, a non-negative integer for a number, an array for a list, a box
/// type name for the box type. A style cannot be set by an override.
pub open spec fn convert(field: FieldView, v: OverrideView) -> Option<FieldView> {
    match field {
        FieldView::Text(_) => match v {
            OverrideView::Text(s) => Some(FieldView::Text(s)),
            _ => None,
        },
        FieldView::OptText(_) => match v {
            OverrideView::Text(s) => Some(FieldView::OptText(Some(s))),
            _ => None,
        },
        FieldView::Flag(_) => match v {
            OverrideView::Boolean(b) => Some(FieldView::Flag(b)),
            _ => None,
        },
        FieldView::Number(_) => match v {
            OverrideView::Integer(i) => if i >= 0 {
                Some(FieldView::Number(i as u64))
            } else {
                None
            },
            _ => None,
        },
        FieldView::List(_) => match v {
            OverrideView::Array(xs) => Some(FieldView::List(xs)),
            _ => None,
        },
        FieldView::Boxed(_) => match v {
            OverrideView::Text(s) => match box_type_of(s) {
                Some(b) => Some(FieldView::Boxed(b)),
                None => None,
            },
            _ => None,
        },
        FieldView::Style(_) => None,
    }
}

/// An override entry fits the configuration: it names no known field, or it
/// has the type of the field it names.
pub open spec fn entry_fits(cv: Seq<FieldView>, e: (Seq<char>, Seq<char>, OverrideView)) -> bool {
    match field_index(e.0, e.1) {
        Some(i) => convert(cv[i], e.2) is Some,
        None => true,
    }
}

/// The fields after setting each entry in order.
pub open spec fn set_entries(cv: Seq<FieldView>, es: Seq<(Seq<char>, Seq<char>, OverrideView)>) -> Seq<
    FieldView,
>
    decreases es.len(),
{
    if es.len() == 0 {
        cv
    } else {
        let prev = set_entries(cv, es.drop_last());
        let e = es.last();
        match field_index(e.0, e.1) {
            Some(i) => match convert(prev[i], e.2) {
                Some(f) => prev.update(i, f),
                None => prev,
            },
            None => prev,
        }
    }
}

/// The configuration after a table of overrides: when every entry fits,
/// each entry sets the field it names (entries that name no field are
/// ignored); when any entry does not fit, nothing changes.
pub open spec fn apply_overrides_spec(cv: Seq<FieldView>, es: Seq<(Seq<char>, Seq<char>, OverrideView)>) -> Seq<
    FieldView,
> {
    if forall|k: int| 0 <= k < es.len() ==> entry_fits(cv, #[trigger] es[k]) {
        set_entries(cv, es)
    } else {
        cv
    }
}

pub fn field_index_of(section: &str, key: &str) -> (r: Option<usize>)
    ensures
        match r {
            Some(i) => field_index(section@, key@) == Some(i as int) && i < 44,
            None => field_index(section@, key@) == None::<int>,
        },
{
    if text::str_equal(section, "colors") {
        color_index_of(key)
    } else if text::str_equal(section, "functions") {
        if text::str_equal(key, "poweroff") {
            Some(15)
        } else if text::str_equal(key, "reboot") {
            Some(16)
        } else if text::str_equal(key, "fido") {
            Some(17)
        } else if text::str_equal(key, "theme") {
            Some(18)
        } else {
            None
        }
    } else if text::str_equal(section, "strings") {
        if text::str_equal(key, "f_poweroff") {
            Some(19)
        } else if text::str_equal(key, "f_reboot") {
            Some(20)
        } else if text::str_equal(key, "f_fido") {
            Some(21)
        } else if text::str_equal(key, "f_theme") {
            Some(22)
        } else if text::str_equal(key, "e_user") {
            Some(23)
        } else if text::str_equal(key, "e_passwd") {
            Some(24)
        } else if text::str_equal(key, "s_wayland") {
            Some(25)
        } else if text::str_equal(key, "s_xorg") {
            Some(26)
        } else if text::str_equal(key, "s_shell") {
            Some(27)
        } else if text::str_equal(key, "opts_pre") {
            Some(28)
        } else if text::str_equal(key, "opts_post") {
            Some(29)
        } else if text::str_equal(key, "ellipsis") {
            Some(30)
        } else {
            None
        }
    } else if text::str_equal(section, "behavior") {
        if text::str_equal(key, "box_type") {
            Some(31)
        } else if text::str_equal(key, "include_defshell") {
            Some(32)
        } else if text::str_equal(key, "show_console") {
            Some(33)
        } else if text::str_equal(key, "source") {
            Some(34)
        } else if text::str_equal(key, "user_source") {
            Some(35)
        } else if text::str_equal(key, "timefmt") {
            Some(36)
        } else if text::str_equal(key, "refresh_rate") {
            Some(37)
        } else if text::str_equal(key, "bypass_shell_login") {
            Some(38)
        } else if text::str_equal(key, "show_theme") {
            Some(39)
        } else {
            None
        }
    } else if text::str_equal(section, "logging") {
        if text::str_equal(key, "file") {
            Some(40)
        } else if text::str_equal(key, "level") {
            Some(41)
        } else if text::str_equal(key, "stdout") {
            Some(42)
        } else {
            None
        }
    } else if text::str_equal(section, "auth") {
        if text::str_equal(key, "pam_service") {
            Some(43)
        } else {
            None
        }
    } else {
        None
    }
}

fn color_index_of(key: &str) -> (r: Option<usize>)
    ensures
        match r {
            Some(i) => colors::color_key_index(key@) == Some(i as int) && i < 15,
            None => colors::color_key_index(key@) == None::<int>,
        },
{
    if text::str_equal(key, "bg") {
        Some(0)
    } else if text::str_equal(key, "fg") {
        Some(1)
    } else if text::str_equal(key, "err") {
        Some(2)
    } else if text::str_equal(key, "warn") {
        Some(3)
    } else if text::str_equal(key, "s_wayland") {
        Some(4)
    } else if text::str_equal(key, "s_xorg") {
        Some(5)
    } else if text::str_equal(key, "s_shell") {
        Some(6)
    } else if text::str_equal(key, "e_hostname") {
        Some(7)
    } else if text::str_equal(key, "e_date") {
        Some(8)
    } else if text::str_equal(key, "e_box") {
        Some(9)
    } else if text::str_equal(key, "e_header") {
        Some(10)
    } else if text::str_equal(key, "e_user") {
        Some(11)
    } else if text::str_equal(key, "e_passwd") {
        Some(12)
    } else if text::str_equal(key, "e_badpasswd") {
        Some(13)
    } else if text::str_equal(key, "e_key") {
        Some(14)
    } else {
        None
    }
}

/// The kind of value each field holds.
pub open spec fn is_text_field(i: int) -> bool {
    (19 <= i <= 20) || (23 <= i <= 30) || i == 36 || i == 40 || i == 41 || i == 43
}

pub open spec fn is_opt_text_field(i: int) -> bool {
    (15 <= i <= 18) || i == 21 || i == 22
}

pub open spec fn is_flag_field(i: int) -> bool {
    i == 32 || i == 33 || i == 38 || i == 39 || i == 42
}

proof fn lemma_field_kinds(c: Config, i: int)
    requires
        0 <= i < 44,
    ensures
        c@.len() == 44,
        i < 15 ==> c@[i] is Style,
        is_text_field(i) ==> c@[i] is Text,
        is_opt_text_field(i) ==> c@[i] is OptText,
        is_flag_field(i) ==> c@[i] is Flag,
        i == 31 ==> c@[i] is Boxed,
        (i == 34 || i == 35) ==> c@[i] is List,
        i == 37 ==> c@[i] is Number,
{
}

/// Whether the override value fits field `i` (of any configuration).
fn fits_field(i: usize, v: &OverrideValue) -> (r: bool)
    requires
        i < 44,
    ensures
        forall|c: Config| #[trigger] convert(c@[i as int], v@) is Some <==> r,
{
    proof {
        assert forall|c: Config| #[trigger] convert(c@[i as int], v@) is Some <==> (if i < 15 {
            false
        } else if is_text_field(i as int) {
            v@ is Text
        } else if is_opt_text_field(i as int) {
            v@ is Text
        } else if is_flag_field(i as int) {
            v@ is Boolean
        } else if i == 31 {
            v@ is Text && box_type_of(v@->Text_0) is Some
        } else if i == 34 || i == 35 {
            v@ is Array
        } else {
            v@ is Integer && v@->Integer_0 >= 0
        }) by {
            lemma_field_kinds(c, i as int);
        }
    }
    if i < 15 {
        false
    } else if (19 <= i && i <= 20) || (23 <= i && i <= 30) || i == 36 || i == 40 || i == 41 || i
        == 43 || (15 <= i && i <= 18) || i == 21 || i == 22 {
        match v {
            OverrideValue::Text(_) => true,
            _ => false,
        }
    } else if i == 32 || i == 33 || i == 38 || i == 39 || i == 42 {
        match v {
            OverrideValue::Boolean(_) => true,
            _ => false,
        }
    } else if i == 31 {
        match v {
            OverrideValue::Text(s) => parse_box_type(s.as_str()).is_some(),
            _ => false,
        }
    } else if i == 34 || i == 35 {
        match v {
            OverrideValue::Array(_) => true,
            _ => false,
        }
    } else {
        match v {
            OverrideValue::Integer(n) => *n >= 0,
            _ => false,
        }
    }
}

fn text_of(v: &OverrideValue) -> (r: String)
    requires
        v@ is Text,
    ensures
        r@ == v@->Text_0,
{
    match v {
        OverrideValue::Text(s) => s.clone(),
        _ => String::new(),
    }
}

fn flag_of(v: &OverrideValue) -> (r: bool)
    requires
        v@ is Boolean,
    ensures
        r == v@->Boolean_0,
{
    match v {
        OverrideValue::Boolean(b) => *b,
        _ => false,
    }
}

impl Functions {
    fn set(&mut self, j: usize, v: &OverrideValue)
        requires
            j < 4,
            convert(old(self)@[j as int], v@) is Some,
        ensures
            final(self)@ == old(self)@.update(j as int, convert(old(self)@[j as int], v@)->0),
    {
        let ghost before = self@;
        let t = text_of(v);
        if j == 0 {
            self.poweroff = Some(t);
        } else if j == 1 {
            self.reboot = Some(t);
        } else if j == 2 {
            self.fido = Some(t);
        } else {
            self.theme = Some(t);
        }
        assert(self@ =~= before.update(j as int, convert(before[j as int], v@)->0));
    }
}

impl Strings {
    fn set(&mut self, j: usize, v: &OverrideValue)
        requires
            j < 12,
            convert(old(self)@[j as int], v@) is Some,
        ensures
            final(self)@ == old(self)@.update(j as int, convert(old(self)@[j as int], v@)->0),
    {
        let ghost before = self@;
        let t = text_of(v);
        if j == 0 {
            self.f_poweroff = t;
        } else if j == 1 {
            self.f_reboot = t;
        } else if j == 2 {
            self.f_fido = Some(t);
        } else if j == 3 {
            self.f_theme = Some(t);
        } else if j == 4 {
            self.e_user = t;
        } else if j == 5 {
            self.e_passwd = t;
        } else if j == 6 {
            self.s_wayland = t;
        } else if j == 7 {
            self.s_xorg = t;
        } else if j == 8 {
            self.s_shell = t;
        } else if j == 9 {
            self.opts_pre = t;
        } else if j == 10 {
            self.opts_post = t;
        } else {
            self.ellipsis = t;
        }
        assert(self@ =~= before.update(j as int, convert(before[j as int], v@)->0));
    }
}

impl Behavior {
    fn set(&mut self, j: usize, v: &OverrideValue)
        requires
            j < 9,
            convert(old(self)@[j as int], v@) is Some,
        ensures
            final(self)@ == old(self)@.update(j as int, convert(old(self)@[j as int], v@)->0),
    {
        let ghost before = self@;
        if j == 0 {
            let t = text_of(v);
            match parse_box_type(t.as_str()) {
                Some(b) => self.box_type = b,
                None => {},
            }
        } else if j == 1 {
            self.include_defshell = flag_of(v);
        } else if j == 2 {
            self.show_console = flag_of(v);
        } else if j == 3 || j == 4 {
            let list = match v {
                OverrideValue::Array(xs) => colors::clone_strings(xs),
                _ => Vec::new(),
            };
            if j == 3 {
                self.source = list;
            } else {
                self.user_source = list;
            }
        } else if j == 5 {
            self.timefmt = text_of(v);
        } else if j == 6 {
            match v {
                OverrideValue::Integer(n) => {
                    self.refresh_rate = *n as u64;
                },
                _ => {},
            }
        } else if j == 7 {
            self.bypass_shell_login = flag_of(v);
        } else {
            self.show_theme = flag_of(v);
        }
        assert(self@ =~= before.update(j as int, convert(before[j as int], v@)->0));
    }
}

impl LoggingConfig {
    fn set(&mut self, j: usize, v: &OverrideValue)
        requires
            j < 3,
            convert(old(self)@[j as int], v@) is Some,
        ensures
            final(self)@ == old(self)@.update(j as int, convert(old(self)@[j as int], v@)->0),
    {
        let ghost before = self@;
        if j == 0 {
            self.file = text_of(v);
        } else if j == 1 {
            self.level = text_of(v);
        } else {
            self.stdout = flag_of(v);
        }
        assert(self@ =~= before.update(j as int, convert(before[j as int], v@)->0));
    }
}

impl AuthConfig {
    fn set(&mut self, v: &OverrideValue)
        requires
            convert(old(self)@[0], v@) is Some,
        ensures
            final(self)@ == old(self)@.update(0, convert(old(self)@[0], v@)->0),
    {
        let ghost before = self@;
        self.pam_service = text_of(v);
        assert(self@ =~= before.update(0, convert(before[0], v@)->0));
    }
}

impl Config {
    pub fn new() -> (r: Self)
        ensures
            r@ == default_config(),
    {
        Self::default()
    }

    /// Sets field `i` from an override value that fits it.
    fn set_field(&mut self, i: usize, v: &OverrideValue)
        requires
            i < 44,
            convert(old(self)@[i as int], v@) is Some,
        ensures
            final(self)@ == old(self)@.update(i as int, convert(old(self)@[i as int], v@)->0),
    {
        let ghost before = self@;
        let ghost f = convert(before[i as int], v@)->0;
        let ghost cs = style_fields(self.colors@);
        assert(cs.len() == 15);
        if i < 15 {
            assert(before[i as int] == cs[i as int]);
            assert(false);
        } else if i < 19 {
            assert(before[i as int] == self.functions@[i - 15]);
            self.functions.set(i - 15, v);
            assert(self@ =~= before.update(i as int, f));
        } else if i < 31 {
            assert(before[i as int] == self.strings@[i - 19]);
            self.strings.set(i - 19, v);
            assert(self@ =~= before.update(i as int, f));
        } else if i < 40 {
            assert(before[i as int] == self.behavior@[i - 31]);
            self.behavior.set(i - 31, v);
            assert(self@ =~= before.update(i as int, f));
        } else if i < 43 {
            assert(before[i as int] == self.logging@[i - 40]);
            self.logging.set(i - 40, v);
            assert(self@ =~= before.update(i as int, f));
        } else {
            assert(before[i as int] == self.auth@[0]);
            self.auth.set(v);
            assert(self@ =~= before.update(i as int, f));
        }
    }

    /// Applies a table of overrides: when every entry has the type of the
    /// field it names, each entry sets its field, in order; otherwise the
    /// configuration stays as it was. Entries naming no field are ignored.
    pub fn apply_table_overrides(&mut self, overrides: &OverrideTable)
        ensures
            final(self)@ == apply_overrides_spec(old(self)@, overrides.entries_view()),
    {
        let es = overrides.entries();
        let ghost ev = overrides.entries_view();
        assert(overrides::entries_of(es@) == ev);
        let mut k: usize = 0;
        while k < es.len()
            invariant
                k <= es@.len(),
                overrides::entries_of(es@) == ev,
                ev == overrides.entries_view(),
                *self == *old(self),
                forall|j: int| 0 <= j < k ==> entry_fits(self@, #[trigger] ev[j]),
            decreases es@.len() - k,
        {
            let (section, key, value) = &es[k];
            assert(ev[k as int] == overrides::entry_of(es@[k as int]));
            match field_index_of(section.as_str(), key.as_str()) {
                Some(i) => {
                    if !fits_field(i, value) {
                        proof {
                            assert(!(convert(self@[i as int], value@) is Some));
                            assert(!entry_fits(self@, ev[k as int]));
                            assert(!(forall|j: int| 0 <= j < ev.len() ==> entry_fits(self@, #[trigger] ev[j])));
                            assert(apply_overrides_spec(self@, ev) == self@);
                            assert(self@ == old(self)@);
                            assert(ev == overrides.entries_view());
                        }
                        return;
                    }
                },
                None => {},
            }
            k = k + 1;
        }
        let ghost start = self@;
        let mut k: usize = 0;
        while k < es.len()
            invariant
                k <= es@.len(),
                overrides::entries_of(es@) == ev,
                ev == overrides.entries_view(),
                start == old(self)@,
                forall|j: int| 0 <= j < es@.len() ==> entry_fits(start, #[trigger] ev[j]),
                self@ == set_entries(start, ev.take(k as int)),
                self@.len() == 44,
                start.len() == 44,
                forall|j: int| 0 <= j < 44 ==> kind_of(#[trigger] self@[j]) == kind_of(start[j]),
            decreases es@.len() - k,
        {
            let (section, key, value) = &es[k];
            assert(ev[k as int] == overrides::entry_of(es@[k as int]));
            assert(ev.take(k + 1).drop_last() =~= ev.take(k as int));
            let ghost before = self@;
            match field_index_of(section.as_str(), key.as_str()) {
                Some(i) => {
                    proof {
                        assert(entry_fits(start, ev[k as int]));
                        lemma_convert_kind(start[i as int], self@[i as int], value@);
                    }
                    self.set_field(i, value);
                    proof {
                        lemma_convert_keeps_kind(before[i as int], value@);
                    }
                },
                None => {},
            }
            k = k + 1;
        }
        assert(ev.take(es@.len() as int) =~= ev);
    }
}

/// The kind of a field value.
pub open spec fn kind_of(f: FieldView) -> int {
    match f {
        FieldView::Text(_) => 0,
        FieldView::OptText(_) => 1,
        FieldView::Flag(_) => 2,
        FieldView::Number(_) => 3,
        FieldView::List(_) => 4,
        FieldView::Boxed(_) => 5,
        FieldView::Style(_) => 6,
    }
}

proof fn lemma_convert_kind(a: FieldView, b: FieldView, v: OverrideView)
    requires
        kind_of(a) == kind_of(b),
    ensures
        convert(a, v) is Some <==> convert(b, v) is Some,
        convert(a, v) is Some ==> convert(a, v) == convert(b, v),
{
}

proof fn lemma_convert_keeps_kind(a: FieldView, v: OverrideView)
    ensures
        convert(a, v) is Some ==> kind_of(convert(a, v)->0) == kind_of(a),
{
}

/// The fields of the built-in configuration.
pub open spec fn default_config() -> Seq<FieldView> {
    let c = colors::default_colors();
    seq![
        FieldView::Style(c[0]),
        FieldView::Style(c[1]),
        FieldView::Style(c[2]),
        FieldView::Style(c[3]),
        FieldView::Style(c[4]),
        FieldView::Style(c[5]),
        FieldView::Style(c[6]),
        FieldView::Style(c[7]),
        FieldView::Style(c[8]),
        FieldView::Style(c[9]),
        FieldView::Style(c[10]),
        FieldView::Style(c[11]),
        FieldView::Style(c[12]),
        FieldView::Style(c[13]),
        FieldView::Style(c[14]),
        FieldView::OptText(Some("F1"@)),
        FieldView::OptText(Some("F2"@)),
        FieldView::OptText(None),
        FieldView::OptText(Some("F3"@)),
        FieldView::Text("poweroff"@),
        FieldView::Text("reboot"@),
        FieldView::OptText(Some("fido"@)),
        FieldView::OptText(Some("theme"@)),
        FieldView::Text("user"@),
        FieldView::Text("password"@),
        FieldView::Text("wayland"@),
        FieldView::Text("xorg"@),
        FieldView::Text("shell"@),
        FieldView::Text("< "@),
        FieldView::Text(" >"@),
        FieldView::Text("\u{2026}"@),
        FieldView::Boxed(BoxType::Border),
        FieldView::Flag(true),
        FieldView::Flag(false),
        FieldView::List(Seq::empty()),
        FieldView::List(Seq::empty()),
        FieldView::Text("%Y-%m-%d %H:%M:%S"@),
        FieldView::Number(100),
        FieldView::Flag(false),
        FieldView::Flag(false),
        FieldView::Text("/tmp/rulmee.log"@),
        FieldView::Text("debug"@),
        FieldView::Flag(false),
        FieldView::Text("login"@),
    ]
}

impl Default for Config {
    fn default() -> (r: Self)
        ensures
            r@ == default_config(),
    {
        let r = Self {
            colors: Colors::default(),
            functions: Functions::default(),
            strings: Strings::default(),
            behavior: Behavior::default(),
            logging: LoggingConfig::default(),
            auth: AuthConfig::default(),
        };
        assert(r.behavior.source.deep_view() =~= Seq::<Seq<char>>::empty());
        assert(r.behavior.user_source.deep_view() =~= Seq::<Seq<char>>::empty());
        assert(r@ =~= default_config());
        r
    }
}


// ---------------------------------------------------------------------------
// Overrides from the environment and the command line
// ---------------------------------------------------------------------------

impl Config {
    /// Extracts configuration overrides given as `--set section.key=value`
    /// or as `--<section>_<key>` / `--<section>-<key>` from an argument
    /// list, returning the overrides and the remaining arguments.
    pub fn extract_cli_overrides(args: &[String]) -> (r: (OverrideTable, Vec<String>))
        ensures
            (r.0.entries_view(), r.1.deep_view()) == overrides::cli_overrides_spec(
                args.deep_view(),
            ),
    {
        overrides::extract_cli_overrides(args)
    }

    /// Applies the environment variables `RULMEE_<SECTION>_<KEY>` (or the
    /// older `LIDM_<SECTION>_<KEY>`) among `vars` as overrides.
    pub fn apply_env_overrides(&mut self, vars: &[(String, String)])
        ensures
            final(self)@ == apply_overrides_spec(
                old(self)@,
                overrides::env_entries(overrides::vars_view(vars@)),
            ),
    {
        let table = overrides::env_overrides(vars);
        self.apply_table_overrides(&table);
    }
}

// ---------------------------------------------------------------------------
// Law: the command line wins over the environment, which wins over the file.
// ---------------------------------------------------------------------------

/// The value of the last entry that names field `i`.
pub open spec fn last_for(es: Seq<overrides::EntryView>, i: int) -> Option<OverrideView>
    decreases es.len(),
{
    if es.len() == 0 {
        None
    } else if field_index(es.last().0, es.last().1) == Some(i) {
        Some(es.last().2)
    } else {
        last_for(es.drop_last(), i)
    }
}

pub open spec fn all_fit(cv: Seq<FieldView>, es: Seq<overrides::EntryView>) -> bool {
    forall|k: int| 0 <= k < es.len() ==> entry_fits(cv, #[trigger] es[k])
}

proof fn lemma_set_entries(cv: Seq<FieldView>, es: Seq<overrides::EntryView>)
    requires
        cv.len() == 44,
        all_fit(cv, es),
    ensures
        set_entries(cv, es).len() == 44,
        forall|j: int| 0 <= j < 44 ==> kind_of(#[trigger] set_entries(cv, es)[j]) == kind_of(cv[j]),
        forall|j: int|
            0 <= j < 44 ==> #[trigger] set_entries(cv, es)[j] == match last_for(es, j) {
                Some(v) => convert(cv[j], v)->0,
                None => cv[j],
            },
    decreases es.len(),
{
    if es.len() > 0 {
        let init = es.drop_last();
        assert forall|k: int| 0 <= k < init.len() implies entry_fits(cv, #[trigger] init[k]) by {
            assert(init[k] == es[k]);
        }
        lemma_set_entries(cv, init);
        let prev = set_entries(cv, init);
        let e = es.last();
        assert(entry_fits(cv, es[es.len() - 1]));
        match field_index(e.0, e.1) {
            Some(i) => {
                lemma_convert_kind(cv[i], prev[i], e.2);
                lemma_convert_keeps_kind(cv[i], e.2);
            },
            None => {},
        }
    }
}

/// Whether every entry of both tables has the type of the field it names.
pub open spec fn overrides_fit(file: Seq<FieldView>, env: Seq<overrides::EntryView>, cli: Seq<overrides::EntryView>) -> bool {
    all_fit(file, env) && all_fit(file, cli)
}

/// Overrides are applied first from the environment, then from the command
/// line. When both fit, a field named on the command line takes the last
/// value given there; otherwise a field named in the environment takes the
/// last value given there; otherwise it keeps its value from the file.
pub proof fn law_override_precedence(
    file: Seq<FieldView>,
    env: Seq<overrides::EntryView>,
    cli: Seq<overrides::EntryView>,
    i: int,
)
    requires
        file.len() == 44,
        0 <= i < 44,
        overrides_fit(file, env, cli),
    ensures
        apply_overrides_spec(apply_overrides_spec(file, env), cli)[i] == match last_for(cli, i) {
            Some(v) => convert(file[i], v)->0,
            None => match last_for(env, i) {
                Some(v) => convert(file[i], v)->0,
                None => file[i],
            },
        },
{
    lemma_set_entries(file, env);
    let mid = set_entries(file, env);
    assert(apply_overrides_spec(file, env) == mid);
    assert forall|k: int| 0 <= k < cli.len() implies entry_fits(mid, #[trigger] cli[k]) by {
        assert(entry_fits(file, cli[k]));
        match field_index(cli[k].0, cli[k].1) {
            Some(j) => lemma_convert_kind(file[j], mid[j], cli[k].2),
            None => {},
        }
    }
    lemma_set_entries(mid, cli);
    assert(apply_overrides_spec(mid, cli) == set_entries(mid, cli));
    match last_for(cli, i) {
        Some(v) => {
            lemma_convert_kind(file[i], mid[i], v);
        },
        None => {},
    }
}

/// An empty table of overrides changes nothing.
pub proof fn law_no_overrides_no_change(cv: Seq<FieldView>)
    ensures
        apply_overrides_spec(cv, Seq::empty()) == cv,
{
}

// ---------------------------------------------------------------------------
// Where the configuration is read from
// ---------------------------------------------------------------------------

/// The parent of a path as `Path::parent` gives it, shown as text.
pub uninterp spec fn path_parent(p: Seq<char>) -> Option<Seq<char>>;

/// Calls `Path::parent` on `p` and shows the parent as text. The parent is a
/// function of `p`, named `path_parent`; how `Path` splits components is not
/// restated here.
#[verifier::external_body]
fn parent_of(p: &str) -> (r: Option<String>)
    ensures
        colors::opt_string_view(r) == path_parent(p@),
{
    std::path::Path::new(p).parent().map(|q| q.display().to_string())
}

/// Calls `Path::exists`. Whether a path exists depends on the file system
/// at the moment of the call; nothing is promised about the answer.
#[verifier::external_body]
fn path_exists(p: &str) -> (r: bool)
{
    std::path::Path::new(p).exists()
}

/// The warning given when the legacy configuration path is used.
pub open spec fn fallback_warning(expected_primary: Seq<char>, fallback_path: Seq<char>) -> Seq<char> {
    let parent = match path_parent(expected_primary) {
        Some(p) => p,
        None => Seq::empty(),
    };
    "Path '"@ + expected_primary + "' not found; falling back to legacy '"@ + fallback_path
        + "' (deprecated). Please migrate configuration to '"@ + parent + "'."@
}

/// Which configuration file to read: `primary` when it exists; else the
/// fallback, with a warning, when `primary` is the expected primary path
/// and the fallback exists; else `primary`.
pub open spec fn config_path_choice(
    primary: Seq<char>,
    expected_primary: Seq<char>,
    fallback_path: Seq<char>,
    primary_exists: bool,
    fallback_exists: bool,
) -> (Seq<char>, Option<Seq<char>>) {
    if primary_exists {
        (primary, None)
    } else if primary == expected_primary && fallback_exists {
        (fallback_path, Some(fallback_warning(expected_primary, fallback_path)))
    } else {
        (primary, None)
    }
}

/// The legacy file stands in only for the expected primary path: an
/// existing primary is always read as it is; a missing primary that is not
/// the expected one is kept, with no warning, whatever exists elsewhere;
/// and a warning comes exactly when the fallback is read in place of the
/// missing expected primary.
pub proof fn law_fallback_only_for_expected_primary(
    primary: Seq<char>,
    expected_primary: Seq<char>,
    fallback_path: Seq<char>,
    primary_exists: bool,
    fallback_exists: bool,
)
    ensures
        primary_exists ==> config_path_choice(
            primary,
            expected_primary,
            fallback_path,
            primary_exists,
            fallback_exists,
        ) == (primary, None::<Seq<char>>),
        !primary_exists && primary != expected_primary ==> config_path_choice(
            primary,
            expected_primary,
            fallback_path,
            primary_exists,
            fallback_exists,
        ) == (primary, None::<Seq<char>>),
        config_path_choice(
            primary,
            expected_primary,
            fallback_path,
            primary_exists,
            fallback_exists,
        ).1 is Some <==> (!primary_exists && primary == expected_primary && fallback_exists),
        config_path_choice(
            primary,
            expected_primary,
            fallback_path,
            primary_exists,
            fallback_exists,
        ).1 is Some ==> config_path_choice(
            primary,
            expected_primary,
            fallback_path,
            primary_exists,
            fallback_exists,
        ).0 == fallback_path,
{
}

fn concat3(a: &str, b: &str, c: &str) -> (r: String)
    ensures
        r@ == a@ + b@ + c@,
{
    let mut r = text::str_to_string(a);
    text::push_str(&mut r, b);
    text::push_str(&mut r, c);
    r
}

/// Chooses the configuration file, given which of the paths exist.
pub fn select_config_path(
    primary: &str,
    expected_primary: &str,
    fallback_path: &str,
    primary_exists: bool,
    fallback_exists: bool,
) -> (r: (String, Option<String>))
    ensures
        (r.0@, colors::opt_string_view(r.1)) == config_path_choice(
            primary@,
            expected_primary@,
            fallback_path@,
            primary_exists,
            fallback_exists,
        ),
{
    if primary_exists {
        return (text::str_to_string(primary), None);
    }
    if text::str_equal(primary, expected_primary) && fallback_exists {
        let parent = match parent_of(expected_primary) {
            Some(p) => p,
            None => String::new(),
        };
        let mut msg = concat3("Path '", expected_primary, "' not found; falling back to legacy '");
        text::push_str(&mut msg, fallback_path);
        text::push_str(&mut msg, "' (deprecated). Please migrate configuration to '");
        text::push_str(&mut msg, parent.as_str());
        text::push_str(&mut msg, "'.");
        return (text::str_to_string(fallback_path), Some(msg));
    }
    (text::str_to_string(primary), None)
}

impl Config {
    /// Resolves the configuration file path given an expected primary and a
    /// fallback path, looking at which of them exist.
    pub fn resolve_config_path_with_custom_fallback(
        primary: &str,
        expected_primary: &str,
        fallback_path: &str,
    ) -> (r: (String, Option<String>))
        ensures
            exists|pe: bool, fe: bool|
                (r.0@, colors::opt_string_view(r.1)) == #[trigger] config_path_choice(
                    primary@,
                    expected_primary@,
                    fallback_path@,
                    pe,
                    fe,
                ),
    {
        let pe = path_exists(primary);
        let fe = if !pe {
            path_exists(fallback_path)
        } else {
            false
        };
        select_config_path(primary, expected_primary, fallback_path, pe, fe)
    }

    /// Resolves the configuration file path, falling back to the legacy
    /// `/etc/lidm/default.toml` when `/etc/rulmee/default.toml` is asked for
    /// and missing.
    pub fn resolve_config_path(primary: &str) -> (r: (String, Option<String>))
        ensures
            exists|pe: bool, fe: bool|
                (r.0@, colors::opt_string_view(r.1)) == #[trigger] config_path_choice(
                    primary@,
                    "/etc/rulmee/default.toml"@,
                    "/etc/lidm/default.toml"@,
                    pe,
                    fe,
                ),
    {
        Self::resolve_config_path_with_custom_fallback(
            primary,
            "/etc/rulmee/default.toml",
            "/etc/lidm/default.toml",
        )
    }
}

// ---------------------------------------------------------------------------
// Loading
// ---------------------------------------------------------------------------

/// What reading the chosen configuration file gave.
pub enum ConfigFile {
    /// No file at the chosen path.
    Missing,
    /// The file was read and parsed.
    Parsed(Config),
    /// The file could not be read or parsed; the text says why.
    Unreadable(String),
}

/// The message given when the configuration file cannot be used.
pub open spec fn parse_failure_message(path: Seq<char>, error: Seq<char>) -> Seq<char> {
    "Failed to parse config from '"@ + path + "': "@ + error
        + ". Falling back to default configuration."@
}

/// The configuration that loading gives: the parsed file, or the defaults
/// when it is missing or unusable, then the environment overrides, then the
/// command-line overrides.
pub open spec fn loaded_config(
    file: ConfigFile,
    vars: Seq<(Seq<char>, Seq<char>)>,
    cli: Seq<overrides::EntryView>,
) -> Seq<FieldView> {
    let base = match file {
        ConfigFile::Parsed(c) => c@,
        _ => default_config(),
    };
    apply_overrides_spec(apply_overrides_spec(base, overrides::env_entries(vars)), cli)
}

/// The message that loading reports: the failure to use the file, or else
/// the warning from choosing the path.
pub open spec fn load_message(path: Seq<char>, file: ConfigFile, warning: Option<Seq<char>>) -> Option<
    Seq<char>,
> {
    match file {
        ConfigFile::Unreadable(e) => Some(parse_failure_message(path, e@)),
        _ => warning,
    }
}

impl Config {
    /// Finishes loading: picks the base configuration from what reading the
    /// file at `resolved_path` gave, then applies the environment variables
    /// `vars` and the command-line overrides `cli`.
    pub fn finish_load(
        resolved_path: &str,
        file: ConfigFile,
        warning: Option<String>,
        vars: &[(String, String)],
        cli: Option<&OverrideTable>,
    ) -> (r: (Self, Option<String>))
        ensures
            r.0@ == loaded_config(
                file,
                overrides::vars_view(vars@),
                match cli {
                    Some(t) => t.entries_view(),
                    None => Seq::empty(),
                },
            ),
            colors::opt_string_view(r.1) == load_message(
                resolved_path@,
                file,
                colors::opt_string_view(warning),
            ),
    {
        let ghost f = file;
        let (mut config, msg) = match file {
            ConfigFile::Parsed(c) => (c, warning),
            ConfigFile::Missing => (Config::default(), warning),
            ConfigFile::Unreadable(e) => {
                let mut m = concat3("Failed to parse config from '", resolved_path, "': ");
                text::push_str(&mut m, e.as_str());
                text::push_str(&mut m, ". Falling back to default configuration.");
                (Config::default(), Some(m))
            },
        };
        config.apply_env_overrides(vars);
        match cli {
            Some(t) => config.apply_table_overrides(t),
            None => {
                let empty = OverrideTable::new();
                config.apply_table_overrides(&empty);
            },
        }
        (config, msg)
    }
}

// ---------------------------------------------------------------------------
// Where `copy-config` writes
// ---------------------------------------------------------------------------

/// Where the default configuration is copied: the trimmed destination when
/// one is given and not blank; else `$XDG_CONFIG_HOME/rulmee/default.toml`
/// when that variable is set and not blank; else
/// `$HOME/.config/rulmee/default.toml` likewise; else
/// `/etc/rulmee/default.toml`.
pub open spec fn copy_path_spec(
    dest: Option<Seq<char>>,
    xdg_config_home: Option<Seq<char>>,
    home: Option<Seq<char>>,
) -> Seq<char> {
    let join = |b: Seq<char>, c: Seq<char>| crate::exec::path_join_spec(b, c);
    if dest is Some && text::trim_seq(dest->0).len() > 0 {
        text::trim_seq(dest->0)
    } else if xdg_config_home is Some && text::trim_seq(xdg_config_home->0).len() > 0 {
        join(join(xdg_config_home->0, "rulmee"@), "default.toml"@)
    } else if home is Some && text::trim_seq(home->0).len() > 0 {
        join(join(join(home->0, ".config"@), "rulmee"@), "default.toml"@)
    } else {
        "/etc/rulmee/default.toml"@
    }
}

pub open spec fn opt_str_view(o: Option<&str>) -> Option<Seq<char>> {
    match o {
        Some(s) => Some(s@),
        None => None,
    }
}

impl Config {
    /// The path `copy-config` writes to; `xdg_config_home` and `home` are
    /// the values of `$XDG_CONFIG_HOME` and `$HOME`, when set.
    pub fn resolve_default_copy_path(
        dest: Option<&str>,
        xdg_config_home: Option<&str>,
        home: Option<&str>,
    ) -> (r: String)
        ensures
            r@ == copy_path_spec(opt_str_view(dest), opt_str_view(xdg_config_home), opt_str_view(home)),
    {
        if let Some(d) = dest {
            let t = text::trim_str(d);
            if t.as_str().unicode_len() > 0 {
                return t;
            }
        }
        if let Some(x) = xdg_config_home {
            if !text::is_blank(x) {
                let a = crate::exec::path_join(x, "rulmee");
                return crate::exec::path_join(a.as_str(), "default.toml");
            }
        }
        if let Some(h) = home {
            if !text::is_blank(h) {
                let a = crate::exec::path_join(h, ".config");
                let b = crate::exec::path_join(a.as_str(), "rulmee");
                return crate::exec::path_join(b.as_str(), "default.toml");
            }
        }
        text::str_to_string("/etc/rulmee/default.toml")
    }
}

} // verus!

