//! Theme styles: a foreground colour, a background colour and text modifiers.
use vstd::prelude::*;

use ratatui::style::Color;

use crate::text;

verus! {

#[verifier::external_type_specification]
#[verifier::external_body]
pub struct ExColor(Color);

pub open spec fn opt_string_view(o: Option<String>) -> Option<Seq<char>> {
    match o {
        Some(s) => Some(s@),
        None => None,
    }
}

/// A style as plain values: colour, background, modifier names.
pub type StyleView = (Option<Seq<char>>, Option<Seq<char>>, Seq<Seq<char>>);

#[derive(Debug, Clone)]
pub struct ThemeStyle {
    pub color: Option<String>,
    pub bg: Option<String>,
    pub modifiers: Vec<String>,
}

impl View for ThemeStyle {
    type V = StyleView;

    open spec fn view(&self) -> StyleView {
        (opt_string_view(self.color), opt_string_view(self.bg), self.modifiers.deep_view())
    }
}

pub fn clone_opt_string(o: &Option<String>) -> (r: Option<String>)
    ensures
        opt_string_view(r) == opt_string_view(*o),
{
    match o {
        Some(s) => Some(s.clone()),
        None => None,
    }
}

pub fn clone_strings(v: &Vec<String>) -> (r: Vec<String>)
    ensures
        r.deep_view() == v.deep_view(),
{
    let mut r: Vec<String> = Vec::new();
    let mut i: usize = 0;
    while i < v.len()
        invariant
            i <= v@.len(),
            r.deep_view() == v.deep_view().take(i as int),
        decreases v@.len() - i,
    {
        let ghost before = r.deep_view();
        r.push(v[i].clone());
        assert(r.deep_view() =~= before.push(v@[i as int]@));
        assert(v.deep_view().take(i + 1) =~= v.deep_view().take(i as int).push(v@[i as int]@));
        i = i + 1;
    }
    assert(v.deep_view().take(v@.len() as int) =~= v.deep_view());
    r
}

impl Default for ThemeStyle {
    fn default() -> (r: Self)
        ensures
            r@ == (None::<Seq<char>>, None::<Seq<char>>, Seq::<Seq<char>>::empty()),
    {
        let r = ThemeStyle { color: None, bg: None, modifiers: Vec::new() };
        assert(r.modifiers.deep_view() =~= Seq::<Seq<char>>::empty());
        r
    }
}

impl ThemeStyle {
    /// A copy with the same colours and modifiers.
    pub fn duplicate(&self) -> (r: Self)
        ensures
            r@ == self@,
    {
        ThemeStyle {
            color: clone_opt_string(&self.color),
            bg: clone_opt_string(&self.bg),
            modifiers: clone_strings(&self.modifiers),
        }
    }

    pub fn color(color: &str) -> (r: Self)
        ensures
            r@ == (Some(color@), None::<Seq<char>>, Seq::<Seq<char>>::empty()),
    {
        let r = Self { color: Some(text::str_to_string(color)), bg: None, modifiers: Vec::new() };
        assert(r.modifiers.deep_view() =~= Seq::<Seq<char>>::empty());
        r
    }

    pub fn bg(bg: &str) -> (r: Self)
        ensures
            r@ == (None::<Seq<char>>, Some(bg@), Seq::<Seq<char>>::empty()),
    {
        let r = Self { color: None, bg: Some(text::str_to_string(bg)), modifiers: Vec::new() };
        assert(r.modifiers.deep_view() =~= Seq::<Seq<char>>::empty());
        r
    }

    pub fn styled(color: &str, modifiers: &[&str]) -> (r: Self)
        ensures
            r@ == (Some(color@), None::<Seq<char>>, modifiers@.map_values(|m: &str| m@)),
    {
        let mut mods: Vec<String> = Vec::new();
        let mut i: usize = 0;
        while i < modifiers.len()
            invariant
                i <= modifiers@.len(),
                mods.deep_view() == modifiers@.map_values(|m: &str| m@).take(i as int),
            decreases modifiers@.len() - i,
        {
            let ghost before = mods.deep_view();
            mods.push(text::str_to_string(modifiers[i]));
            assert(mods.deep_view() =~= before.push(modifiers@[i as int]@));
            assert(modifiers@.map_values(|m: &str| m@).take(i + 1) =~= modifiers@.map_values(
                |m: &str| m@,
            ).take(i as int).push(modifiers@[i as int]@));
            i = i + 1;
        }
        assert(modifiers@.map_values(|m: &str| m@).take(modifiers@.len() as int)
            =~= modifiers@.map_values(|m: &str| m@));
        Self { color: Some(text::str_to_string(color)), bg: None, modifiers: mods }
    }
}

fn with_modifiers(color: &str, mods: Vec<&str>) -> (r: ThemeStyle)
    ensures
        r@ == (Some(color@), None::<Seq<char>>, mods@.map_values(|m: &str| m@)),
{
    ThemeStyle::styled(color, mods.as_slice())
}

// ---------------------------------------------------------------------------
// Modifiers
// ---------------------------------------------------------------------------

/// The text modifiers a terminal style can carry.
#[derive(Debug, Clone, Copy, PartialEq, Eq, Structural)]
pub enum TextModifier {
    Bold,
    Dim,
    Italic,
    Underlined,
    SlowBlink,
    RapidBlink,
    Reversed,
    Hidden,
    CrossedOut,
}

/// The modifier a name stands for, ignoring ASCII case.
pub open spec fn modifier_of(m: Seq<char>) -> Option<TextModifier> {
    let l = text::lower_seq(m);
    if l == "bold"@ {
        Some(TextModifier::Bold)
    } else if l == "dim"@ {
        Some(TextModifier::Dim)
    } else if l == "italic"@ {
        Some(TextModifier::Italic)
    } else if l == "underline"@ || l == "underlined"@ {
        Some(TextModifier::Underlined)
    } else if l == "slow_blink"@ {
        Some(TextModifier::SlowBlink)
    } else if l == "rapid_blink"@ {
        Some(TextModifier::RapidBlink)
    } else if l == "reversed"@ || l == "reverse"@ {
        Some(TextModifier::Reversed)
    } else if l == "hidden"@ {
        Some(TextModifier::Hidden)
    } else if l == "crossed_out"@ || l == "strikethrough"@ {
        Some(TextModifier::CrossedOut)
    } else {
        None
    }
}

/// `s` in ASCII lower case.
pub fn ascii_lowercase(s: &str) -> (r: String)
    ensures
        r@ == text::lower_seq(s@),
{
    let x = text::chars_of(s);
    let mut r = String::new();
    let mut i: usize = 0;
    while i < x.len()
        invariant
            i <= x@.len(),
            r@ == text::lower_seq(x@.take(i as int)),
        decreases x@.len() - i,
    {
        r.push(text::to_ascii_lower(x[i]));
        assert(text::lower_seq(x@.take(i + 1)) =~= text::lower_seq(x@.take(i as int)).push(
            text::ascii_lower(x@[i as int]),
        ));
        i = i + 1;
    }
    assert(x@.take(x@.len() as int) =~= x@);
    r
}

/// Whether `l` equals `lit` ignoring ASCII case (`str::eq_ignore_ascii_case`).
pub fn eq_ignore_ascii_case(l: &str, lit: &str) -> (r: bool)
    ensures
        r == (text::lower_seq(l@) == text::lower_seq(lit@)),
{
    let a = ascii_lowercase(l);
    let b = ascii_lowercase(lit);
    text::str_equal(a.as_str(), b.as_str())
}

pub fn parse_modifier(m: &str) -> (r: Option<TextModifier>)
    ensures
        r == modifier_of(m@),
{
    let l = ascii_lowercase(m);
    let l = l.as_str();
    if text::str_equal(l, "bold") {
        Some(TextModifier::Bold)
    } else if text::str_equal(l, "dim") {
        Some(TextModifier::Dim)
    } else if text::str_equal(l, "italic") {
        Some(TextModifier::Italic)
    } else if text::str_equal(l, "underline") || text::str_equal(l, "underlined") {
        Some(TextModifier::Underlined)
    } else if text::str_equal(l, "slow_blink") {
        Some(TextModifier::SlowBlink)
    } else if text::str_equal(l, "rapid_blink") {
        Some(TextModifier::RapidBlink)
    } else if text::str_equal(l, "reversed") || text::str_equal(l, "reverse") {
        Some(TextModifier::Reversed)
    } else if text::str_equal(l, "hidden") {
        Some(TextModifier::Hidden)
    } else if text::str_equal(l, "crossed_out") || text::str_equal(l, "strikethrough") {
        Some(TextModifier::CrossedOut)
    } else {
        None
    }
}

// ---------------------------------------------------------------------------
// Resolving a style for the terminal
// ---------------------------------------------------------------------------

/// The colour that ratatui's `Color::from_str` gives for `s`, or `None`
/// where it refuses `s`.
pub uninterp spec fn color_of(s: Seq<char>) -> Option<Color>;

/// Calls ratatui's `Color::from_str` (`ratatui::style::Color` implements
/// `FromStr`). The contract says that the answer is a function of `s`
/// alone, named `color_of`: the parse reads nothing but the text. Which
/// names, hex codes and indices it accepts, and the colour each gives, is
/// left unsaid.
#[verifier::external_body]
fn parse_color(s: &str) -> (r: Option<Color>)
    ensures
        r == color_of(s@),
{
    <Color as std::str::FromStr>::from_str(s).ok()
}

/// What a theme style turns into on the terminal: the colours that ratatui
/// recognises and the modifiers that have a name this crate knows, in order.
pub struct ResolvedStyle {
    pub fg: Option<Color>,
    pub bg: Option<Color>,
    pub modifiers: Vec<TextModifier>,
}

/// The known modifiers among `names`, in order; unknown names are skipped.
pub open spec fn known_modifiers(names: Seq<Seq<char>>) -> Seq<TextModifier>
    decreases names.len(),
{
    if names.len() == 0 {
        Seq::empty()
    } else {
        let init = known_modifiers(names.drop_last());
        match modifier_of(names.last()) {
            Some(m) => init.push(m),
            None => init,
        }
    }
}

/// Resolves a theme style: each colour text becomes the colour that ratatui
/// reads from it (none where it reads none), and each modifier name that
/// names a known modifier is kept.
pub fn resolve_style(s: &ThemeStyle) -> (r: ResolvedStyle)
    ensures
        r.fg == (match s.color {
            Some(c) => color_of(c@),
            None => None,
        }),
        r.bg == (match s.bg {
            Some(c) => color_of(c@),
            None => None,
        }),
        r.modifiers@ == known_modifiers(s.modifiers.deep_view()),
{
    let fg = match &s.color {
        Some(c) => parse_color(c.as_str()),
        None => None,
    };
    let bg = match &s.bg {
        Some(c) => parse_color(c.as_str()),
        None => None,
    };
    let mut mods: Vec<TextModifier> = Vec::new();
    let mut i: usize = 0;
    while i < s.modifiers.len()
        invariant
            i <= s.modifiers@.len(),
            mods@ == known_modifiers(s.modifiers.deep_view().take(i as int)),
        decreases s.modifiers@.len() - i,
    {
        assert(s.modifiers.deep_view().take(i + 1).drop_last() =~= s.modifiers.deep_view().take(
            i as int,
        ));
        match parse_modifier(s.modifiers[i].as_str()) {
            Some(m) => mods.push(m),
            None => {},
        }
        i = i + 1;
    }
    assert(s.modifiers.deep_view().take(s.modifiers@.len() as int) =~= s.modifiers.deep_view());
    ResolvedStyle { fg, bg, modifiers: mods }
}

// ---------------------------------------------------------------------------
// The colours of a theme
// ---------------------------------------------------------------------------

#[derive(Debug, Clone)]
pub struct Colors {
    pub bg: ThemeStyle,
    pub fg: ThemeStyle,
    pub err: ThemeStyle,
    pub warn: ThemeStyle,
    pub s_wayland: ThemeStyle,
    pub s_xorg: ThemeStyle,
    pub s_shell: ThemeStyle,
    pub e_hostname: ThemeStyle,
    pub e_date: ThemeStyle,
    pub e_box: ThemeStyle,
    pub e_header: ThemeStyle,
    pub e_user: ThemeStyle,
    pub e_passwd: ThemeStyle,
    pub e_badpasswd: ThemeStyle,
    pub e_key: ThemeStyle,
}

/// The names of the colour entries, in the order of the fields of `Colors`.
pub open spec fn color_key_index(key: Seq<char>) -> Option<int> {
    if key == "bg"@ {
        Some(0)
    } else if key == "fg"@ {
        Some(1)
    } else if key == "err"@ {
        Some(2)
    } else if key == "warn"@ {
        Some(3)
    } else if key == "s_wayland"@ {
        Some(4)
    } else if key == "s_xorg"@ {
        Some(5)
    } else if key == "s_shell"@ {
        Some(6)
    } else if key == "e_hostname"@ {
        Some(7)
    } else if key == "e_date"@ {
        Some(8)
    } else if key == "e_box"@ {
        Some(9)
    } else if key == "e_header"@ {
        Some(10)
    } else if key == "e_user"@ {
        Some(11)
    } else if key == "e_passwd"@ {
        Some(12)
    } else if key == "e_badpasswd"@ {
        Some(13)
    } else if key == "e_key"@ {
        Some(14)
    } else {
        None
    }
}

impl View for Colors {
    /// The fifteen styles, in field order.
    type V = Seq<StyleView>;

    open spec fn view(&self) -> Seq<StyleView> {
        seq![
            self.bg@,
            self.fg@,
            self.err@,
            self.warn@,
            self.s_wayland@,
            self.s_xorg@,
            self.s_shell@,
            self.e_hostname@,
            self.e_date@,
            self.e_box@,
            self.e_header@,
            self.e_user@,
            self.e_passwd@,
            self.e_badpasswd@,
            self.e_key@,
        ]
    }
}

pub open spec fn plain(c: Seq<char>) -> StyleView {
    (Some(c), None, Seq::empty())
}

pub open spec fn with_mods(c: Seq<char>, mods: Seq<Seq<char>>) -> StyleView {
    (Some(c), None, mods)
}

/// The colours of the built-in theme.
pub open spec fn default_colors() -> Seq<StyleView> {
    seq![
        (None, Some("#261c1c"@), Seq::empty()),
        plain("#f5f5f5"@),
        with_mods("red"@, seq!["bold"@]),
        plain("yellow"@),
        plain("#ffae42"@),
        plain("#25afff"@),
        plain("green"@),
        plain("lightred"@),
        plain("darkgray"@),
        plain("gray"@),
        with_mods("green"@, seq!["underlined"@]),
        plain("cyan"@),
        with_mods("#f5f5cd"@, seq!["underlined"@]),
        with_mods("red"@, seq!["italic"@, "underlined"@]),
        plain("#ffae42"@),
    ]
}

impl Default for Colors {
    fn default() -> (r: Self)
        ensures
            r@ == default_colors(),
    {
        let r = Self {
            bg: ThemeStyle::bg("#261c1c"),
            fg: ThemeStyle::color("#f5f5f5"),
            err: with_modifiers("red", vec!["bold"]),
            warn: ThemeStyle::color("yellow"),
            s_wayland: ThemeStyle::color("#ffae42"),
            s_xorg: ThemeStyle::color("#25afff"),
            s_shell: ThemeStyle::color("green"),
            e_hostname: ThemeStyle::color("lightred"),
            e_date: ThemeStyle::color("darkgray"),
            e_box: ThemeStyle::color("gray"),
            e_header: with_modifiers("green", vec!["underlined"]),
            e_user: ThemeStyle::color("cyan"),
            e_passwd: with_modifiers("#f5f5cd", vec!["underlined"]),
            e_badpasswd: with_modifiers("red", vec!["italic", "underlined"]),
            e_key: ThemeStyle::color("#ffae42"),
        };
        assert(r.err.modifiers.deep_view() =~= seq!["bold"@]);
        assert(r.e_header.modifiers.deep_view() =~= seq!["underlined"@]);
        assert(r.e_passwd.modifiers.deep_view() =~= seq!["underlined"@]);
        assert(r.e_badpasswd.modifiers.deep_view() =~= seq!["italic"@, "underlined"@]);
        assert(r@ =~= default_colors());
        r
    }
}

impl Colors {
    /// A copy with the same styles.
    pub fn duplicate(&self) -> (r: Self)
        ensures
            r@ == self@,
    {
        Colors {
            bg: self.bg.duplicate(),
            fg: self.fg.duplicate(),
            err: self.err.duplicate(),
            warn: self.warn.duplicate(),
            s_wayland: self.s_wayland.duplicate(),
            s_xorg: self.s_xorg.duplicate(),
            s_shell: self.s_shell.duplicate(),
            e_hostname: self.e_hostname.duplicate(),
            e_date: self.e_date.duplicate(),
            e_box: self.e_box.duplicate(),
            e_header: self.e_header.duplicate(),
            e_user: self.e_user.duplicate(),
            e_passwd: self.e_passwd.duplicate(),
            e_badpasswd: self.e_badpasswd.duplicate(),
            e_key: self.e_key.duplicate(),
        }
    }

    /// Sets the entry named `key`; any other name changes nothing.
    pub fn set_by_name(&mut self, key: &str, style: ThemeStyle)
        ensures
            final(self)@ == match color_key_index(key@) {
                Some(i) => old(self)@.update(i, style@),
                None => old(self)@,
            },
    {
        let ghost before = self@;
        if text::str_equal(key, "bg") {
            self.bg = style;
        } else if text::str_equal(key, "fg") {
            self.fg = style;
        } else if text::str_equal(key, "err") {
            self.err = style;
        } else if text::str_equal(key, "warn") {
            self.warn = style;
        } else if text::str_equal(key, "s_wayland") {
            self.s_wayland = style;
        } else if text::str_equal(key, "s_xorg") {
            self.s_xorg = style;
        } else if text::str_equal(key, "s_shell") {
            self.s_shell = style;
        } else if text::str_equal(key, "e_hostname") {
            self.e_hostname = style;
        } else if text::str_equal(key, "e_date") {
            self.e_date = style;
        } else if text::str_equal(key, "e_box") {
            self.e_box = style;
        } else if text::str_equal(key, "e_header") {
            self.e_header = style;
        } else if text::str_equal(key, "e_user") {
            self.e_user = style;
        } else if text::str_equal(key, "e_passwd") {
            self.e_passwd = style;
        } else if text::str_equal(key, "e_badpasswd") {
            self.e_badpasswd = style;
        } else if text::str_equal(key, "e_key") {
            self.e_key = style;
        }
        proof {
            match color_key_index(key@) {
                Some(i) => assert(self@ =~= before.update(i, style@)),
                None => assert(self@ =~= before),
            }
        }
    }
}

} // verus!
