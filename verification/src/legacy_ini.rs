//! Themes written in the older INI format, whose styles are ANSI SGR codes.
use vstd::prelude::*;

use crate::colors::{Colors, ThemeStyle, StyleView};
use crate::colors;
use crate::text;

verus! {

// ---------------------------------------------------------------------------
// Tokens of an SGR string
// ---------------------------------------------------------------------------

/// `str::trim_start_matches(c)`.
pub open spec fn strip_leading(s: Seq<char>, c: char) -> Seq<char>
    decreases s.len(),
{
    if s.len() > 0 && s[0] == c {
        strip_leading(s.drop_first(), c)
    } else {
        s
    }
}

/// `str::trim_end_matches(c)`.
pub open spec fn strip_trailing(s: Seq<char>, c: char) -> Seq<char>
    decreases s.len(),
{
    if s.len() > 0 && s.last() == c {
        strip_trailing(s.drop_last(), c)
    } else {
        s
    }
}

/// `str::trim_matches(c)`.
pub open spec fn strip_char(s: Seq<char>, c: char) -> Seq<char> {
    strip_trailing(strip_leading(s, c), c)
}

pub open spec fn keep_nonempty(t: Seq<char>) -> Seq<Seq<char>> {
    if t.len() > 0 {
        seq![t]
    } else {
        Seq::empty()
    }
}

/// The parts of `s` between `;` separators, each trimmed, empty ones dropped.
pub open spec fn sgr_parts(s: Seq<char>) -> Seq<Seq<char>>
    decreases s.len(),
{
    match text::find_char(s, ';') {
        Some(i) => {
            proof {
                text::lemma_find_char(s, ';');
            }
            keep_nonempty(text::trim_seq(s.take(i))) + sgr_parts(s.skip(i + 1))
        },
        None => keep_nonempty(text::trim_seq(s)),
    }
}

/// The tokens of an SGR string: trimmed, with surrounding `"` and then `'`
/// removed, split at `;`, each part trimmed, empty parts dropped.
pub open spec fn sgr_tokens(sgr: Seq<char>) -> Seq<Seq<char>> {
    sgr_parts(strip_char(strip_char(text::trim_seq(sgr), '"'), '\''))
}

/// The bounds of `strip_char(x[lo..hi], c)` in `x`.
fn strip_char_bounds(x: &[char], lo: usize, hi: usize, c: char) -> (r: (usize, usize))
    requires
        lo <= hi <= x.len(),
    ensures
        lo <= r.0 <= r.1 <= hi,
        strip_char(x@.subrange(lo as int, hi as int), c) == x@.subrange(r.0 as int, r.1 as int),
{
    let mut a = lo;
    while a < hi && x[a] == c
        invariant
            lo <= a <= hi <= x.len(),
            strip_leading(x@.subrange(lo as int, hi as int), c) == strip_leading(
                x@.subrange(a as int, hi as int),
                c,
            ),
        decreases hi - a,
    {
        assert(x@.subrange(a as int, hi as int).drop_first() =~= x@.subrange(a + 1, hi as int));
        a = a + 1;
    }
    let mut b = hi;
    while b > a && x[b - 1] == c
        invariant
            lo <= a <= b <= hi <= x.len(),
            strip_trailing(x@.subrange(a as int, hi as int), c) == strip_trailing(
                x@.subrange(a as int, b as int),
                c,
            ),
        decreases b - a,
    {
        assert(x@.subrange(a as int, b as int).drop_last() =~= x@.subrange(a as int, b - 1));
        b = b - 1;
    }
    (a, b)
}

/// The tokens of `sgr`.
pub fn sgr_tokenize(sgr: &str) -> (r: Vec<String>)
    ensures
        r.deep_view() == sgr_tokens(sgr@),
{
    let x = text::chars_of(sgr);
    let n = x.len();
    assert(x@.subrange(0, n as int) == x@);
    let (a0, b0) = text::trim_bounds(x.as_slice(), 0, n);
    let (a1, b1) = strip_char_bounds(x.as_slice(), a0, b0, '"');
    let (lo, hi) = strip_char_bounds(x.as_slice(), a1, b1, '\'');
    let ghost body = x@.subrange(lo as int, hi as int);
    let mut r: Vec<String> = Vec::new();
    let mut start = lo;
    assert(body.skip(0) =~= body);
    assert(r.deep_view() + sgr_parts(body) =~= sgr_parts(body));
    loop
        invariant
            lo <= start <= hi <= n,
            n == x@.len(),
            body == x@.subrange(lo as int, hi as int),
            body == strip_char(strip_char(text::trim_seq(sgr@), '"'), '\''),
            r.deep_view() + sgr_parts(x@.subrange(start as int, hi as int)) == sgr_parts(body),
        decreases hi - start,
    {
        let ghost rest = x@.subrange(start as int, hi as int);
        match text::find_in_range(x.as_slice(), start, hi, ';') {
            Some(k) => {
                let (ta, tb) = text::trim_bounds(x.as_slice(), start, k);
                let ghost before = r.deep_view();
                assert(rest.take(k - start) =~= x@.subrange(start as int, k as int));
                assert(rest.skip(k - start + 1) =~= x@.subrange(k + 1, hi as int));
                if ta < tb {
                    r.push(text::string_of_range(x.as_slice(), ta, tb));
                    assert(r.deep_view() =~= before + keep_nonempty(
                        x@.subrange(ta as int, tb as int),
                    ));
                } else {
                    assert(r.deep_view() =~= before + keep_nonempty(
                        x@.subrange(ta as int, tb as int),
                    ));
                }
                assert(r.deep_view() + sgr_parts(x@.subrange(k + 1, hi as int)) =~= before
                    + sgr_parts(rest));
                start = k + 1;
            },
            None => {
                let (ta, tb) = text::trim_bounds(x.as_slice(), start, hi);
                let ghost before = r.deep_view();
                if ta < tb {
                    r.push(text::string_of_range(x.as_slice(), ta, tb));
                }
                assert(r.deep_view() =~= before + keep_nonempty(x@.subrange(ta as int, tb as int)));
                assert(r.deep_view() == sgr_parts(body));
                return r;
            },
        }
    }
}

// ---------------------------------------------------------------------------
// The codes
// ---------------------------------------------------------------------------

/// The modifier that a single-digit code sets.
pub open spec fn sgr_modifier(tok: Seq<char>) -> Option<Seq<char>> {
    if tok == "1"@ {
        Some("bold"@)
    } else if tok == "2"@ {
        Some("dim"@)
    } else if tok == "3"@ {
        Some("italic"@)
    } else if tok == "4"@ {
        Some("underlined"@)
    } else if tok == "5"@ {
        Some("slow_blink"@)
    } else if tok == "6"@ {
        Some("rapid_blink"@)
    } else if tok == "7"@ {
        Some("reversed"@)
    } else if tok == "8"@ {
        Some("hidden"@)
    } else if tok == "9"@ {
        Some("crossed_out"@)
    } else {
        None
    }
}

/// The named foreground colour that a code sets.
pub open spec fn sgr_foreground(tok: Seq<char>) -> Option<Seq<char>> {
    if tok == "30"@ {
        Some("black"@)
    } else if tok == "31"@ {
        Some("red"@)
    } else if tok == "32"@ {
        Some("green"@)
    } else if tok == "33"@ {
        Some("yellow"@)
    } else if tok == "34"@ {
        Some("blue"@)
    } else if tok == "35"@ {
        Some("magenta"@)
    } else if tok == "36"@ {
        Some("cyan"@)
    } else if tok == "37"@ {
        Some("white"@)
    } else if tok == "90"@ {
        Some("darkgray"@)
    } else if tok == "91"@ {
        Some("lightred"@)
    } else if tok == "92"@ {
        Some("lightgreen"@)
    } else if tok == "93"@ {
        Some("lightyellow"@)
    } else if tok == "94"@ {
        Some("lightblue"@)
    } else if tok == "95"@ {
        Some("lightmagenta"@)
    } else if tok == "96"@ {
        Some("lightcyan"@)
    } else if tok == "97"@ {
        Some("white"@)
    } else {
        None
    }
}

/// The named background colour that a code sets.
pub open spec fn sgr_background(tok: Seq<char>) -> Option<Seq<char>> {
    if tok == "40"@ {
        Some("black"@)
    } else if tok == "41"@ {
        Some("red"@)
    } else if tok == "42"@ {
        Some("green"@)
    } else if tok == "43"@ {
        Some("yellow"@)
    } else if tok == "44"@ {
        Some("blue"@)
    } else if tok == "45"@ {
        Some("magenta"@)
    } else if tok == "46"@ {
        Some("cyan"@)
    } else if tok == "47"@ {
        Some("white"@)
    } else {
        None
    }
}

pub open spec fn opt_str_view(o: Option<&str>) -> Option<Seq<char>> {
    match o {
        Some(s) => Some(s@),
        None => None,
    }
}

fn modifier_code(tok: &str) -> (r: Option<&'static str>)
    ensures
        opt_str_view(r) == sgr_modifier(tok@),
{
    if text::str_equal(tok, "1") {
        Some("bold")
    } else if text::str_equal(tok, "2") {
        Some("dim")
    } else if text::str_equal(tok, "3") {
        Some("italic")
    } else if text::str_equal(tok, "4") {
        Some("underlined")
    } else if text::str_equal(tok, "5") {
        Some("slow_blink")
    } else if text::str_equal(tok, "6") {
        Some("rapid_blink")
    } else if text::str_equal(tok, "7") {
        Some("reversed")
    } else if text::str_equal(tok, "8") {
        Some("hidden")
    } else if text::str_equal(tok, "9") {
        Some("crossed_out")
    } else {
        None
    }
}

fn foreground_code(tok: &str) -> (r: Option<&'static str>)
    ensures
        opt_str_view(r) == sgr_foreground(tok@),
{
    if text::str_equal(tok, "30") {
        Some("black")
    } else if text::str_equal(tok, "31") {
        Some("red")
    } else if text::str_equal(tok, "32") {
        Some("green")
    } else if text::str_equal(tok, "33") {
        Some("yellow")
    } else if text::str_equal(tok, "34") {
        Some("blue")
    } else if text::str_equal(tok, "35") {
        Some("magenta")
    } else if text::str_equal(tok, "36") {
        Some("cyan")
    } else if text::str_equal(tok, "37") {
        Some("white")
    } else if text::str_equal(tok, "90") {
        Some("darkgray")
    } else if text::str_equal(tok, "91") {
        Some("lightred")
    } else if text::str_equal(tok, "92") {
        Some("lightgreen")
    } else if text::str_equal(tok, "93") {
        Some("lightyellow")
    } else if text::str_equal(tok, "94") {
        Some("lightblue")
    } else if text::str_equal(tok, "95") {
        Some("lightmagenta")
    } else if text::str_equal(tok, "96") {
        Some("lightcyan")
    } else if text::str_equal(tok, "97") {
        Some("white")
    } else {
        None
    }
}

fn background_code(tok: &str) -> (r: Option<&'static str>)
    ensures
        opt_str_view(r) == sgr_background(tok@),
{
    if text::str_equal(tok, "40") {
        Some("black")
    } else if text::str_equal(tok, "41") {
        Some("red")
    } else if text::str_equal(tok, "42") {
        Some("green")
    } else if text::str_equal(tok, "43") {
        Some("yellow")
    } else if text::str_equal(tok, "44") {
        Some("blue")
    } else if text::str_equal(tok, "45") {
        Some("magenta")
    } else if text::str_equal(tok, "46") {
        Some("cyan")
    } else if text::str_equal(tok, "47") {
        Some("white")
    } else {
        None
    }
}

// ---------------------------------------------------------------------------
// Hex colours
// ---------------------------------------------------------------------------

pub open spec fn hex_digit(d: int) -> char {
    if d < 10 {
        (0x30 + d) as char
    } else {
        (0x61 + d - 10) as char
    }
}

/// `format!("#{:02x}{:02x}{:02x}", r, g, b)`.
pub open spec fn hex_color(r: u8, g: u8, b: u8) -> Seq<char> {
    seq![
        '#',
        hex_digit((r / 16) as int),
        hex_digit((r % 16) as int),
        hex_digit((g / 16) as int),
        hex_digit((g % 16) as int),
        hex_digit((b / 16) as int),
        hex_digit((b % 16) as int),
    ]
}

fn hex_char(d: u8) -> (c: char)
    requires
        d < 16,
    ensures
        c == hex_digit(d as int),
{
    if d < 10 {
        (0x30u8 + d) as char
    } else {
        (0x61u8 + d - 10) as char
    }
}

pub fn format_hex_color(r: u8, g: u8, b: u8) -> (s: String)
    ensures
        s@ == hex_color(r, g, b),
{
    let mut s = String::new();
    s.push('#');
    s.push(hex_char(r / 16));
    s.push(hex_char(r % 16));
    s.push(hex_char(g / 16));
    s.push(hex_char(g % 16));
    s.push(hex_char(b / 16));
    s.push(hex_char(b % 16));
    assert(s@ =~= hex_color(r, g, b));
    s
}

/// The colour of `r;g;b` components, when all three are `u8` numbers.
pub open spec fn rgb_color(r: Seq<char>, g: Seq<char>, b: Seq<char>) -> Option<Seq<char>> {
    match (text::parse_u8_spec(r), text::parse_u8_spec(g), text::parse_u8_spec(b)) {
        (Some(x), Some(y), Some(z)) => Some(hex_color(x, y, z)),
        _ => None,
    }
}

// ---------------------------------------------------------------------------
// The style of an SGR string
// ---------------------------------------------------------------------------

/// `mods` with `name` added at the end, unless it is already there.
pub open spec fn add_modifier(mods: Seq<Seq<char>>, name: Seq<char>) -> Seq<Seq<char>> {
    if mods.contains(name) {
        mods
    } else {
        mods.push(name)
    }
}

/// Reads the tokens from position `i` with the style read so far.
///
/// `1`..`9` add a modifier (once); `38;2;r;g;b` and `48;2;r;g;b` set the
/// foreground or background to a hex colour when the components are numbers
/// (and skip the five tokens either way); `38;5;n` and `48;5;n` set it to
/// `n` as written; `30`..`37`, `90`..`97` set a named foreground and
/// `40`..`47` a named background; any other token is skipped.
pub open spec fn sgr_scan(t: Seq<Seq<char>>, i: int, style: StyleView) -> StyleView
    decreases t.len() - i,
{
    if i < 0 || i >= t.len() {
        style
    } else {
        let tok = t[i];
        let (fg, bg, mods) = style;
        match sgr_modifier(tok) {
            Some(name) => sgr_scan(t, i + 1, (fg, bg, add_modifier(mods, name))),
            None => if tok == "38"@ && i + 4 < t.len() && t[i + 1] == "2"@ {
                let c = rgb_color(t[i + 2], t[i + 3], t[i + 4]);
                sgr_scan(
                    t,
                    i + 5,
                    (
                        if c is Some {
                            c
                        } else {
                            fg
                        },
                        bg,
                        mods,
                    ),
                )
            } else if tok == "48"@ && i + 4 < t.len() && t[i + 1] == "2"@ {
                let c = rgb_color(t[i + 2], t[i + 3], t[i + 4]);
                sgr_scan(
                    t,
                    i + 5,
                    (
                        fg,
                        if c is Some {
                            c
                        } else {
                            bg
                        },
                        mods,
                    ),
                )
            } else if tok == "38"@ && i + 2 < t.len() && t[i + 1] == "5"@ {
                sgr_scan(t, i + 3, (Some(t[i + 2]), bg, mods))
            } else if tok == "48"@ && i + 2 < t.len() && t[i + 1] == "5"@ {
                sgr_scan(t, i + 3, (fg, Some(t[i + 2]), mods))
            } else {
                match sgr_foreground(tok) {
                    Some(name) => sgr_scan(t, i + 1, (Some(name), bg, mods)),
                    None => match sgr_background(tok) {
                        Some(name) => sgr_scan(t, i + 1, (fg, Some(name), mods)),
                        None => sgr_scan(t, i + 1, style),
                    },
                }
            },
        }
    }
}

/// The style that an SGR string describes.
pub open spec fn ansi_style(sgr: Seq<char>) -> StyleView {
    sgr_scan(sgr_tokens(sgr), 0, (None, None, Seq::empty()))
}

fn contains_name(mods: &Vec<String>, name: &str) -> (r: bool)
    ensures
        r == mods.deep_view().contains(name@),
{
    let mut i: usize = 0;
    while i < mods.len()
        invariant
            i <= mods@.len(),
            forall|j: int| 0 <= j < i ==> mods.deep_view()[j] != name@,
        decreases mods@.len() - i,
    {
        if text::str_equal(mods[i].as_str(), name) {
            assert(mods.deep_view()[i as int] == name@);
            return true;
        }
        i = i + 1;
    }
    false
}

fn rgb_of(t: &Vec<String>, i: usize) -> (r: Option<String>)
    requires
        i + 4 < t@.len(),
    ensures
        colors::opt_string_view(r) == rgb_color(
            t.deep_view()[i + 2],
            t.deep_view()[i + 3],
            t.deep_view()[i + 4],
        ),
{
    let n = t.len();
    assert(i + 4 < n);
    let rr = text::parse_u8(t[i + 2].as_str());
    let gg = text::parse_u8(t[i + 3].as_str());
    let bb = text::parse_u8(t[i + 4].as_str());
    match (rr, gg, bb) {
        (Some(x), Some(y), Some(z)) => Some(format_hex_color(x, y, z)),
        _ => None,
    }
}

/// Parses a legacy ANSI SGR escape code string (e.g. `"1;4;38;2;255;174;66"`) into a `ThemeStyle`.
pub fn parse_ansi_style(sgr: &str) -> (style: ThemeStyle)
    ensures
        style@ == ansi_style(sgr@),
{
    let tokens = sgr_tokenize(sgr);
    let ghost t = tokens.deep_view();
    let mut style = ThemeStyle { color: None, bg: None, modifiers: Vec::new() };
    assert(style.modifiers.deep_view() =~= Seq::<Seq<char>>::empty());
    let mut i: usize = 0;
    while i < tokens.len()
        invariant
            t == tokens.deep_view(),
            t == sgr_tokens(sgr@),
            sgr_scan(t, i as int, style@) == ansi_style(sgr@),
        decreases tokens@.len() - i,
    {
        let tok = tokens[i].as_str();
        assert(tok@ == t[i as int]);
        match modifier_code(tok) {
            Some(name) => {
                if !contains_name(&style.modifiers, name) {
                    let ghost before = style.modifiers.deep_view();
                    style.modifiers.push(text::str_to_string(name));
                    assert(style.modifiers.deep_view() =~= before.push(name@));
                }
                i = i + 1;
                continue;
            },
            None => {},
        }
        let n = tokens.len();
        if text::str_equal(tok, "38") && n - i > 4 && text::str_equal(tokens[i + 1].as_str(), "2") {
            match rgb_of(&tokens, i) {
                Some(c) => style.color = Some(c),
                None => {},
            }
            i = i + 5;
        } else if text::str_equal(tok, "48") && n - i > 4 && text::str_equal(
            tokens[i + 1].as_str(),
            "2",
        ) {
            match rgb_of(&tokens, i) {
                Some(c) => style.bg = Some(c),
                None => {},
            }
            i = i + 5;
        } else if text::str_equal(tok, "38") && n - i > 2 && text::str_equal(
            tokens[i + 1].as_str(),
            "5",
        ) {
            style.color = Some(tokens[i + 2].clone());
            i = i + 3;
        } else if text::str_equal(tok, "48") && n - i > 2 && text::str_equal(
            tokens[i + 1].as_str(),
            "5",
        ) {
            style.bg = Some(tokens[i + 2].clone());
            i = i + 3;
        } else {
            match foreground_code(tok) {
                Some(name) => style.color = Some(text::str_to_string(name)),
                None => match background_code(tok) {
                    Some(name) => style.bg = Some(text::str_to_string(name)),
                    None => {},
                },
            }
            i = i + 1;
        }
    }
    style
}

// ---------------------------------------------------------------------------
// Law: no modifier is listed twice.
// ---------------------------------------------------------------------------

pub open spec fn no_duplicates(s: Seq<Seq<char>>) -> bool {
    forall|a: int, b: int| 0 <= a < b < s.len() ==> s[a] != s[b]
}

proof fn lemma_sgr_scan_no_duplicates(t: Seq<Seq<char>>, i: int, style: StyleView)
    requires
        no_duplicates(style.2),
    ensures
        no_duplicates(sgr_scan(t, i, style).2),
    decreases t.len() - i,
{
    if 0 <= i < t.len() {
        let tok = t[i];
        let (fg, bg, mods) = style;
        match sgr_modifier(tok) {
            Some(name) => {
                let m2 = add_modifier(mods, name);
                assert(no_duplicates(m2)) by {
                    if !mods.contains(name) {
                        assert forall|a: int, b: int| 0 <= a < b < m2.len() implies m2[a]
                            != m2[b] by {
                            if b == mods.len() {
                                assert(m2[a] == mods[a]);
                            }
                        }
                    }
                }
                lemma_sgr_scan_no_duplicates(t, i + 1, (fg, bg, m2));
            },
            None => {
                if tok == "38"@ && i + 4 < t.len() && t[i + 1] == "2"@ {
                    let c = rgb_color(t[i + 2], t[i + 3], t[i + 4]);
                    lemma_sgr_scan_no_duplicates(
                        t,
                        i + 5,
                        (
                            if c is Some {
                                c
                            } else {
                                fg
                            },
                            bg,
                            mods,
                        ),
                    );
                } else if tok == "48"@ && i + 4 < t.len() && t[i + 1] == "2"@ {
                    let c = rgb_color(t[i + 2], t[i + 3], t[i + 4]);
                    lemma_sgr_scan_no_duplicates(
                        t,
                        i + 5,
                        (
                            fg,
                            if c is Some {
                                c
                            } else {
                                bg
                            },
                            mods,
                        ),
                    );
                } else if tok == "38"@ && i + 2 < t.len() && t[i + 1] == "5"@ {
                    lemma_sgr_scan_no_duplicates(t, i + 3, (Some(t[i + 2]), bg, mods));
                } else if tok == "48"@ && i + 2 < t.len() && t[i + 1] == "5"@ {
                    lemma_sgr_scan_no_duplicates(t, i + 3, (fg, Some(t[i + 2]), mods));
                } else {
                    match sgr_foreground(tok) {
                        Some(name) => lemma_sgr_scan_no_duplicates(
                            t,
                            i + 1,
                            (Some(name), bg, mods),
                        ),
                        None => match sgr_background(tok) {
                            Some(name) => lemma_sgr_scan_no_duplicates(
                                t,
                                i + 1,
                                (fg, Some(name), mods),
                            ),
                            None => lemma_sgr_scan_no_duplicates(t, i + 1, style),
                        },
                    }
                }
            },
        }
    }
}

/// A style read from an SGR string never lists the same modifier twice,
/// however often its code repeats.
pub proof fn law_ansi_modifiers_distinct(sgr: Seq<char>)
    ensures
        no_duplicates(ansi_style(sgr).2),
{
    lemma_sgr_scan_no_duplicates(sgr_tokens(sgr), 0, (None, None, Seq::empty()));
}

/// The nine modifier names a style read from SGR codes can hold.
pub open spec fn known_modifier_name(m: Seq<char>) -> bool {
    m == "bold"@ || m == "dim"@ || m == "italic"@ || m == "underlined"@ || m == "slow_blink"@
        || m == "rapid_blink"@ || m == "reversed"@ || m == "hidden"@ || m == "crossed_out"@
}

/// Every name in `mods` is a known modifier name.
pub open spec fn all_known_modifiers(mods: Seq<Seq<char>>) -> bool {
    forall|k: int| 0 <= k < mods.len() ==> known_modifier_name(#[trigger] mods[k])
}

proof fn lemma_sgr_scan_known_modifiers(t: Seq<Seq<char>>, i: int, style: StyleView)
    requires
        all_known_modifiers(style.2),
    ensures
        all_known_modifiers(sgr_scan(t, i, style).2),
    decreases t.len() - i,
{
    if 0 <= i < t.len() {
        let tok = t[i];
        let (fg, bg, mods) = style;
        match sgr_modifier(tok) {
            Some(name) => {
                let m2 = add_modifier(mods, name);
                assert(known_modifier_name(name));
                assert(all_known_modifiers(m2)) by {
                    assert forall|k: int| 0 <= k < m2.len() implies known_modifier_name(
                        #[trigger] m2[k],
                    ) by {
                        if k < mods.len() {
                            assert(m2[k] == mods[k]);
                        }
                    }
                }
                lemma_sgr_scan_known_modifiers(t, i + 1, (fg, bg, m2));
            },
            None => {
                if tok == "38"@ && i + 4 < t.len() && t[i + 1] == "2"@ {
                    let c = rgb_color(t[i + 2], t[i + 3], t[i + 4]);
                    lemma_sgr_scan_known_modifiers(t, i + 5, (if c is Some { c } else { fg }, bg, mods));
                } else if tok == "48"@ && i + 4 < t.len() && t[i + 1] == "2"@ {
                    let c = rgb_color(t[i + 2], t[i + 3], t[i + 4]);
                    lemma_sgr_scan_known_modifiers(t, i + 5, (fg, if c is Some { c } else { bg }, mods));
                } else if tok == "38"@ && i + 2 < t.len() && t[i + 1] == "5"@ {
                    lemma_sgr_scan_known_modifiers(t, i + 3, (Some(t[i + 2]), bg, mods));
                } else if tok == "48"@ && i + 2 < t.len() && t[i + 1] == "5"@ {
                    lemma_sgr_scan_known_modifiers(t, i + 3, (fg, Some(t[i + 2]), mods));
                } else {
                    match sgr_foreground(tok) {
                        Some(name) => lemma_sgr_scan_known_modifiers(t, i + 1, (Some(name), bg, mods)),
                        None => match sgr_background(tok) {
                            Some(name) => lemma_sgr_scan_known_modifiers(
                                t,
                                i + 1,
                                (fg, Some(name), mods),
                            ),
                            None => lemma_sgr_scan_known_modifiers(t, i + 1, style),
                        },
                    }
                }
            },
        }
    }
}

/// Every modifier of a style read from SGR codes is one of the nine known
/// names.
pub proof fn law_ansi_modifiers_known(sgr: Seq<char>)
    ensures
        all_known_modifiers(ansi_style(sgr).2),
{
    lemma_sgr_scan_known_modifiers(sgr_tokens(sgr), 0, (None, None, Seq::empty()));
}

/// A token that sets nothing: no modifier, colour or colour introducer.
pub open spec fn sgr_inert(tok: Seq<char>) -> bool {
    &&& sgr_modifier(tok) is None
    &&& sgr_foreground(tok) is None
    &&& sgr_background(tok) is None
    &&& tok != "38"@
    &&& tok != "48"@
}

proof fn lemma_sgr_scan_inert(t: Seq<Seq<char>>, i: int, style: StyleView)
    requires
        0 <= i,
        forall|k: int| i <= k < t.len() ==> sgr_inert(#[trigger] t[k]),
    ensures
        sgr_scan(t, i, style) == style,
    decreases t.len() - i,
{
    if i < t.len() {
        assert(sgr_inert(t[i]));
        lemma_sgr_scan_inert(t, i + 1, style);
    }
}

/// SGR codes that set nothing leave the style empty: unrecognised tokens
/// change nothing.
pub proof fn law_ansi_unknown_codes_change_nothing(sgr: Seq<char>)
    requires
        forall|k: int| 0 <= k < sgr_tokens(sgr).len() ==> sgr_inert(#[trigger] sgr_tokens(sgr)[k]),
    ensures
        ansi_style(sgr) == (None::<Seq<char>>, None::<Seq<char>>, Seq::<Seq<char>>::empty()),
{
    lemma_sgr_scan_inert(sgr_tokens(sgr), 0, (None, None, Seq::empty()));
}

/// The modifier names that the tokens `t` stand for, in token order; tokens
/// that are no modifier code add nothing.
pub open spec fn modifier_codes(t: Seq<Seq<char>>) -> Seq<Seq<char>>
    decreases t.len(),
{
    if t.len() == 0 {
        Seq::empty()
    } else {
        let init = modifier_codes(t.drop_last());
        match sgr_modifier(t.last()) {
            Some(name) => init.push(name),
            None => init,
        }
    }
}

/// The distinct entries of `s`, each kept where it first occurs.
pub open spec fn first_occurrences(s: Seq<Seq<char>>) -> Seq<Seq<char>>
    decreases s.len(),
{
    if s.len() == 0 {
        Seq::empty()
    } else {
        add_modifier(first_occurrences(s.drop_last()), s.last())
    }
}

/// No `38` or `48` in `t` introduces a colour (it is followed by neither
/// `2` and three more tokens nor `5` and one more): every token is read as a
/// code of its own.
pub open spec fn no_colour_introducer(t: Seq<Seq<char>>) -> bool {
    forall|k: int|
        0 <= k < t.len() && (#[trigger] t[k] == "38"@ || t[k] == "48"@) ==> !(k + 4 < t.len()
            && t[k + 1] == "2"@) && !(k + 2 < t.len() && t[k + 1] == "5"@)
}

proof fn lemma_sgr_scan_modifier_order(t: Seq<Seq<char>>, i: int, style: StyleView)
    requires
        0 <= i <= t.len(),
        no_colour_introducer(t),
        style.2 == first_occurrences(modifier_codes(t.take(i))),
    ensures
        sgr_scan(t, i, style).2 == first_occurrences(modifier_codes(t)),
    decreases t.len() - i,
{
    if i == t.len() {
        assert(t.take(i) =~= t);
    } else {
        let tok = t[i];
        let (fg, bg, mods) = style;
        let next = t.take(i + 1);
        assert(next.drop_last() =~= t.take(i));
        assert(next.last() == tok);
        match sgr_modifier(tok) {
            Some(name) => {
                let codes = modifier_codes(t.take(i)).push(name);
                assert(codes.drop_last() =~= modifier_codes(t.take(i)));
                assert(modifier_codes(next) == codes);
                assert(first_occurrences(codes) == add_modifier(mods, name));
                lemma_sgr_scan_modifier_order(t, i + 1, (fg, bg, add_modifier(mods, name)));
            },
            None => {
                assert(modifier_codes(next) == modifier_codes(t.take(i)));
                match sgr_foreground(tok) {
                    Some(name) => lemma_sgr_scan_modifier_order(t, i + 1, (Some(name), bg, mods)),
                    None => match sgr_background(tok) {
                        Some(name) => lemma_sgr_scan_modifier_order(
                            t,
                            i + 1,
                            (fg, Some(name), mods),
                        ),
                        None => lemma_sgr_scan_modifier_order(t, i + 1, style),
                    },
                }
            },
        }
    }
}

/// Where every token is read as a code of its own (no `38` or `48`
/// introduces a colour), the modifiers of the style are the modifier codes
/// in the order in which each is first read: a repeated code keeps its
/// first place.
pub proof fn law_ansi_modifiers_in_first_order(sgr: Seq<char>)
    requires
        no_colour_introducer(sgr_tokens(sgr)),
    ensures
        ansi_style(sgr).2 == first_occurrences(modifier_codes(sgr_tokens(sgr))),
{
    let t = sgr_tokens(sgr);
    assert(t.take(0) =~= Seq::<Seq<char>>::empty());
    lemma_sgr_scan_modifier_order(t, 0, (None, None, Seq::empty()));
}

/// The eight ANSI colours, in the order of their codes (`30`..`37` for the
/// foreground, `40`..`47` for the background).
pub open spec fn ansi_colour_order() -> Seq<Seq<char>> {
    seq!["black"@, "red"@, "green"@, "yellow"@, "blue"@, "magenta"@, "cyan"@, "white"@]
}

/// The bright foreground colours, in the order of their codes (`90`..`97`).
pub open spec fn bright_colour_order() -> Seq<Seq<char>> {
    seq![
        "darkgray"@,
        "lightred"@,
        "lightgreen"@,
        "lightyellow"@,
        "lightblue"@,
        "lightmagenta"@,
        "lightcyan"@,
        "white"@,
    ]
}

proof fn lemma_code_literals()
    ensures
        "1"@ == seq!['1'],
        "2"@ == seq!['2'],
        "3"@ == seq!['3'],
        "4"@ == seq!['4'],
        "5"@ == seq!['5'],
        "6"@ == seq!['6'],
        "7"@ == seq!['7'],
        "8"@ == seq!['8'],
        "9"@ == seq!['9'],
        "38"@ == seq!['3', '8'],
        "48"@ == seq!['4', '8'],
        "30"@ == seq!['3', '0'],
        "31"@ == seq!['3', '1'],
        "32"@ == seq!['3', '2'],
        "33"@ == seq!['3', '3'],
        "34"@ == seq!['3', '4'],
        "35"@ == seq!['3', '5'],
        "36"@ == seq!['3', '6'],
        "37"@ == seq!['3', '7'],
        "90"@ == seq!['9', '0'],
        "91"@ == seq!['9', '1'],
        "92"@ == seq!['9', '2'],
        "93"@ == seq!['9', '3'],
        "94"@ == seq!['9', '4'],
        "95"@ == seq!['9', '5'],
        "96"@ == seq!['9', '6'],
        "97"@ == seq!['9', '7'],
        "40"@ == seq!['4', '0'],
        "41"@ == seq!['4', '1'],
        "42"@ == seq!['4', '2'],
        "43"@ == seq!['4', '3'],
        "44"@ == seq!['4', '4'],
        "45"@ == seq!['4', '5'],
        "46"@ == seq!['4', '6'],
        "47"@ == seq!['4', '7'],
{
    reveal_strlit("1");
    reveal_strlit("2");
    reveal_strlit("3");
    reveal_strlit("4");
    reveal_strlit("5");
    reveal_strlit("6");
    reveal_strlit("7");
    reveal_strlit("8");
    reveal_strlit("9");
    reveal_strlit("38");
    reveal_strlit("48");
    reveal_strlit("30");
    reveal_strlit("31");
    reveal_strlit("32");
    reveal_strlit("33");
    reveal_strlit("34");
    reveal_strlit("35");
    reveal_strlit("36");
    reveal_strlit("37");
    reveal_strlit("90");
    reveal_strlit("91");
    reveal_strlit("92");
    reveal_strlit("93");
    reveal_strlit("94");
    reveal_strlit("95");
    reveal_strlit("96");
    reveal_strlit("97");
    reveal_strlit("40");
    reveal_strlit("41");
    reveal_strlit("42");
    reveal_strlit("43");
    reveal_strlit("44");
    reveal_strlit("45");
    reveal_strlit("46");
    reveal_strlit("47");
}

/// A string of plain characters (no white space, `;` or quote) is one token.
proof fn lemma_single_token(t: Seq<char>)
    requires
        t.len() > 0,
        forall|k: int|
            0 <= k < t.len() ==> !text::is_ws(#[trigger] t[k]) && t[k] != ';' && t[k] != '"'
                && t[k] != '\'',
    ensures
        sgr_tokens(t) == seq![t],
{
    assert(!text::is_ws(t[0]));
    assert(!text::is_ws(t.last()));
    assert(text::trim_start_seq(t) == t);
    assert(text::trim_end_seq(t) == t);
    assert(text::trim_seq(t) == t);
    assert(t[0] != '"' && t.last() != '"');
    assert(t[0] != '\'' && t.last() != '\'');
    assert(strip_leading(t, '"') == t);
    assert(strip_trailing(t, '"') == t);
    assert(strip_leading(t, '\'') == t);
    assert(strip_trailing(t, '\'') == t);
    text::lemma_find_char_unique(t, ';', t.len() as int);
    assert(sgr_parts(t) == keep_nonempty(text::trim_seq(t)));
}

/// The text modifiers, in the order of their codes `1`..`9`.
pub open spec fn modifier_order() -> Seq<Seq<char>> {
    seq![
        "bold"@,
        "dim"@,
        "italic"@,
        "underlined"@,
        "slow_blink"@,
        "rapid_blink"@,
        "reversed"@,
        "hidden"@,
        "crossed_out"@,
    ]
}

/// The single-digit SGR codes name the modifiers in their standard order:
/// `d` alone gives the `d`-th modifier and no colour.
pub proof fn law_modifier_codes(d: char)
    requires
        '1' <= d <= '9',
    ensures
        ansi_style(seq![d]) == (
            None::<Seq<char>>,
            None::<Seq<char>>,
            seq![modifier_order()[d as int - '1' as int]],
        ),
{
    lemma_code_literals();
    let t = seq![d];
    lemma_single_token(t);
    let name = modifier_order()[d as int - '1' as int];
    assert(sgr_modifier(t) == Some(name));
    assert(add_modifier(Seq::<Seq<char>>::empty(), name) =~= seq![name]);
    assert(sgr_scan(seq![t], 1, (None, None, seq![name])) == (
        None::<Seq<char>>,
        None::<Seq<char>>,
        seq![name],
    ));
}

/// The SGR colour codes name the colours in their standard order: `3d`
/// sets the foreground and `4d` the background to the `d`-th ANSI colour,
/// `9d` the foreground to the `d`-th bright colour, and nothing else is
/// set.
pub proof fn law_standard_colour_codes(d: char)
    requires
        '0' <= d <= '7',
    ensures
        ansi_style(seq!['3', d]) == (
            Some(ansi_colour_order()[d as int - '0' as int]),
            None::<Seq<char>>,
            Seq::<Seq<char>>::empty(),
        ),
        ansi_style(seq!['4', d]) == (
            None::<Seq<char>>,
            Some(ansi_colour_order()[d as int - '0' as int]),
            Seq::<Seq<char>>::empty(),
        ),
        ansi_style(seq!['9', d]) == (
            Some(bright_colour_order()[d as int - '0' as int]),
            None::<Seq<char>>,
            Seq::<Seq<char>>::empty(),
        ),
{
    lemma_code_literals();
    let init = (None::<Seq<char>>, None::<Seq<char>>, Seq::<Seq<char>>::empty());
    let fg = seq!['3', d];
    let bg = seq!['4', d];
    let br = seq!['9', d];
    lemma_single_token(fg);
    lemma_single_token(bg);
    lemma_single_token(br);
    let k = d as int - '0' as int;
    assert(sgr_modifier(fg) is None);
    assert(sgr_modifier(bg) is None);
    assert(sgr_modifier(br) is None);
    assert(sgr_foreground(fg) == Some(ansi_colour_order()[k]));
    assert(sgr_foreground(bg) is None);
    assert(sgr_background(bg) == Some(ansi_colour_order()[k]));
    assert(sgr_foreground(br) == Some(bright_colour_order()[k]));
    assert(sgr_scan(seq![fg], 1, (Some(ansi_colour_order()[k]), None, Seq::empty())) == (
        Some(ansi_colour_order()[k]),
        None::<Seq<char>>,
        Seq::<Seq<char>>::empty(),
    ));
    assert(sgr_scan(seq![bg], 1, (None, Some(ansi_colour_order()[k]), Seq::empty())) == (
        None::<Seq<char>>,
        Some(ansi_colour_order()[k]),
        Seq::<Seq<char>>::empty(),
    ));
    assert(sgr_scan(seq![br], 1, (Some(bright_colour_order()[k]), None, Seq::empty())) == (
        Some(bright_colour_order()[k]),
        None::<Seq<char>>,
        Seq::<Seq<char>>::empty(),
    ));
}

// ---------------------------------------------------------------------------
// INI theme files
// ---------------------------------------------------------------------------

/// Whether a trimmed line is a section header `[...]`.
pub open spec fn is_section_header(l: Seq<char>) -> bool {
    l.len() > 0 && l[0] == '[' && l.last() == ']'
}

/// The colours and the section flag after one line of an INI theme.
///
/// Blank lines and `#` or `;` comments change nothing. A header starts a
/// section; only the `[colors]` section (any ASCII case) is read. There,
/// `name = value` sets the entry named by the lower-cased, trimmed name to
/// the style of the value; unknown names are ignored.
pub open spec fn ini_step(colors: Seq<StyleView>, in_colors: bool, line: Seq<char>) -> (
    Seq<StyleView>,
    bool,
) {
    let l = text::trim_seq(line);
    if l.len() == 0 || l[0] == '#' || l[0] == ';' {
        (colors, in_colors)
    } else if is_section_header(l) {
        (colors, text::lower_seq(l) == "[colors]"@)
    } else if in_colors {
        match text::split_once_seq(l, '=') {
            Some((k, v)) => match colors::color_key_index(text::unicode_lower(text::trim_seq(k))) {
                Some(idx) => (colors.update(idx, ansi_style(v)), in_colors),
                None => (colors, in_colors),
            },
            None => (colors, in_colors),
        }
    } else {
        (colors, in_colors)
    }
}

pub open spec fn ini_scan(lines: Seq<Seq<char>>, colors: Seq<StyleView>, in_colors: bool) -> (
    Seq<StyleView>,
    bool,
)
    decreases lines.len(),
{
    if lines.len() == 0 {
        (colors, in_colors)
    } else {
        let (c, f) = ini_scan(lines.drop_last(), colors, in_colors);
        ini_step(c, f, lines.last())
    }
}

/// The colours of an INI theme: the built-in colours with the entries of
/// its `[colors]` section applied in order.
pub open spec fn legacy_ini_colors(content: Seq<char>) -> Seq<StyleView> {
    ini_scan(text::lines_seq(content), colors::default_colors(), false).0
}

/// Applies one line of an INI theme to the colours read so far.
fn ini_line(colors: &mut Colors, in_colors: &mut bool, line: &str)
    ensures
        (final(colors)@, *final(in_colors)) == ini_step(old(colors)@, *old(in_colors), line@),
{
    let l = text::trim_str(line);
    let x = text::chars_of(l.as_str());
    let n = x.len();
    if n == 0 || x[0] == '#' || x[0] == ';' {
        return;
    }
    if x[0] == '[' && x[n - 1] == ']' {
        proof {
            reveal_strlit("[colors]");
            assert(text::lower_seq("[colors]"@) =~= "[colors]"@);
        }
        *in_colors = colors::eq_ignore_ascii_case(l.as_str(), "[colors]");
        return;
    }
    if !*in_colors {
        return;
    }
    match text::find_in_range(x.as_slice(), 0, n, '=') {
        Some(k) => {
            assert(x@.subrange(0, n as int) == x@);
            let (ka, kb) = text::trim_bounds(x.as_slice(), 0, k);
            let key = text::to_lowercase(text::string_of_range(x.as_slice(), ka, kb).as_str());
            let value = text::string_of_range(x.as_slice(), k + 1, n);
            assert(x@.take(k as int) =~= x@.subrange(0, k as int));
            assert(x@.skip(k + 1) =~= x@.subrange(k + 1, n as int));
            let style = parse_ansi_style(value.as_str());
            colors.set_by_name(key.as_str(), style);
        },
        None => {
            assert(x@.subrange(0, n as int) == x@);
        },
    }
}

/// The colours of the INI theme whose text is `content`.
pub fn parse_legacy_ini(content: &str) -> (r: Colors)
    ensures
        r@ == legacy_ini_colors(content@),
{
    let ls = text::lines(content);
    let mut colors = Colors::default();
    let mut in_colors = false;
    let mut i: usize = 0;
    while i < ls.len()
        invariant
            i <= ls@.len(),
            ls.deep_view() == text::lines_seq(content@),
            (colors@, in_colors) == ini_scan(
                ls.deep_view().take(i as int),
                colors::default_colors(),
                false,
            ),
        decreases ls@.len() - i,
    {
        assert(ls.deep_view().take(i + 1).drop_last() =~= ls.deep_view().take(i as int));
        ini_line(&mut colors, &mut in_colors, ls[i].as_str());
        i = i + 1;
    }
    assert(ls.deep_view().take(ls@.len() as int) =~= ls.deep_view());
    colors
}

} // verus!
