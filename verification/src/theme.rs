//! Named themes and the list the user cycles through.
use vstd::prelude::*;

use crate::colors::Colors;
use crate::paths;
use crate::text;

verus! {

#[derive(Debug, Clone)]
pub struct Theme {
    pub name: String,
    pub path: String,
    pub colors: Colors,
}

impl Theme {
    pub fn new(name: &str, path: &str, colors: Colors) -> (r: Self)
        ensures
            r.name@ == name@,
            r.path@ == path@,
            r.colors@ == colors@,
    {
        Self { name: text::str_to_string(name), path: text::str_to_string(path), colors }
    }

    /// A copy with the same name, path and colours.
    pub fn duplicate(&self) -> (r: Self)
        ensures
            r.name@ == self.name@,
            r.path@ == self.path@,
            r.colors@ == self.colors@,
    {
        Self { name: self.name.clone(), path: self.path.clone(), colors: self.colors.duplicate() }
    }
}

/// The list that theme discovery starts from: the built-in `"default"`
/// theme with the colours currently loaded.
pub fn initial_themes(base_colors: &Colors) -> (r: Vec<Theme>)
    ensures
        r@.len() == 1,
        r@[0].name@ == "default"@,
        r@[0].path@ == "default"@,
        r@[0].colors@ == base_colors@,
{
    let mut v: Vec<Theme> = Vec::new();
    v.push(Theme::new("default", "default", base_colors.duplicate()));
    v
}

/// Whether a theme of that name is already listed; discovery skips a file
/// whose name is taken.
pub fn has_theme(themes: &[Theme], name: &str) -> (r: bool)
    ensures
        r == exists|i: int| 0 <= i < themes@.len() && (#[trigger] themes@[i]).name@ == name@,
{
    let mut i: usize = 0;
    while i < themes.len()
        invariant
            i <= themes@.len(),
            forall|j: int| 0 <= j < i ==> (#[trigger] themes@[j]).name@ != name@,
        decreases themes@.len() - i,
    {
        if text::str_equal(themes[i].name.as_str(), name) {
            return true;
        }
        i = i + 1;
    }
    false
}

/// The directories searched for theme files, in order.
pub open spec fn theme_dirs_spec() -> Seq<Seq<char>> {
    seq![
        "/etc/rulmee/themes"@,
        "/usr/share/rulmee/themes"@,
        "/etc/lidm/themes"@,
        "/usr/share/lidm/themes"@,
        "./themes"@,
    ]
}

pub fn theme_search_dirs() -> (r: Vec<String>)
    ensures
        r.deep_view() == theme_dirs_spec(),
{
    let mut r: Vec<String> = Vec::new();
    r.push(text::str_to_string("/etc/rulmee/themes"));
    r.push(text::str_to_string("/usr/share/rulmee/themes"));
    r.push(text::str_to_string("/etc/lidm/themes"));
    r.push(text::str_to_string("/usr/share/lidm/themes"));
    r.push(text::str_to_string("./themes"));
    assert(r.deep_view() =~= theme_dirs_spec());
    r
}

/// How a theme file is read.
#[derive(Debug, Clone, Copy, PartialEq, Eq, Structural)]
pub enum ThemeFormat {
    /// A TOML configuration file; its `[colors]` table is the theme.
    Toml,
    /// A legacy INI theme.
    Ini,
}

/// The theme name of a file: its stem, or `unknown` when it has none.
pub open spec fn theme_name_of(path: Seq<char>) -> Seq<char> {
    match paths::path_file_stem(path) {
        Some(stem) => stem,
        None => "unknown"@,
    }
}

/// What discovery does with a file of a theme directory, given the themes
/// already listed: a file with a `toml` or `ini` extension whose name is not
/// taken yet is loaded under that name; any other file is skipped.
pub open spec fn theme_plan_spec(path: Seq<char>, taken: Seq<Seq<char>>) -> Option<
    (Seq<char>, ThemeFormat),
> {
    match paths::path_extension(path) {
        None => None,
        Some(ext) => {
            let name = theme_name_of(path);
            if taken.contains(name) {
                None
            } else if ext == "toml"@ {
                Some((name, ThemeFormat::Toml))
            } else if ext == "ini"@ {
                Some((name, ThemeFormat::Ini))
            } else {
                None
            }
        },
    }
}

pub open spec fn theme_names(themes: Seq<Theme>) -> Seq<Seq<char>> {
    themes.map_values(|t: Theme| t.name@)
}

/// The name and format under which the file at `path` is loaded, or `None`
/// when discovery skips it.
pub fn theme_file_plan(path: &str, themes: &[Theme]) -> (r: Option<(String, ThemeFormat)>)
    ensures
        match r {
            Some((name, format)) => theme_plan_spec(path@, theme_names(themes@)) == Some(
                (name@, format),
            ),
            None => theme_plan_spec(path@, theme_names(themes@)) is None,
        },
{
    let ext = match paths::extension_of(path) {
        Some(e) => e,
        None => return None,
    };
    let name = match paths::file_stem_of(path) {
        Some(stem) => stem,
        None => text::str_to_string("unknown"),
    };
    let taken = has_theme(themes, name.as_str());
    proof {
        let names = theme_names(themes@);
        if taken {
            let i = choose|i: int| 0 <= i < themes@.len() && (#[trigger] themes@[i]).name@ == name@;
            assert(names[i] == name@);
        } else {
            assert forall|i: int| 0 <= i < names.len() implies names[i] != name@ by {
                assert(themes@[i].name@ != name@);
            }
        }
    }
    if taken {
        return None;
    }
    if text::str_equal(ext.as_str(), "toml") {
        Some((name, ThemeFormat::Toml))
    } else if text::str_equal(ext.as_str(), "ini") {
        Some((name, ThemeFormat::Ini))
    } else {
        None
    }
}

/// The themes that discovery has listed so far, in the order found.
pub struct ThemeDiscovery {
    themes: Vec<Theme>,
}

impl View for ThemeDiscovery {
    type V = Seq<Theme>;

    closed spec fn view(&self) -> Seq<Theme> {
        self.themes@
    }
}

proof fn lemma_names_push(themes: Seq<Theme>, t: Theme)
    requires
        theme_names(themes).no_duplicates(),
        !theme_names(themes).contains(t.name@),
    ensures
        theme_names(themes.push(t)) == theme_names(themes).push(t.name@),
        theme_names(themes.push(t)).no_duplicates(),
{
    let names = theme_names(themes);
    assert(theme_names(themes.push(t)) =~= names.push(t.name@));
    let n = t.name@;
    assert forall|i: int, j: int|
        0 <= i < names.push(n).len() && 0 <= j < names.push(n).len() && i != j implies names.push(
            n,
        )[i] != names.push(n)[j] by {
        if i < names.len() && j < names.len() {
        } else if i == names.len() {
            assert(names[j] != n);
        } else {
            assert(names[i] != n);
        }
    }
}

impl ThemeDiscovery {
    /// Each theme name is listed once.
    pub open spec fn wf(&self) -> bool {
        theme_names(self@).no_duplicates()
    }

    /// Discovery before any file is read: the `"default"` theme with the
    /// colours currently loaded.
    pub fn new(base_colors: &Colors) -> (r: Self)
        ensures
            r.wf(),
            r@.len() == 1,
            r@[0].name@ == "default"@,
            r@[0].path@ == "default"@,
            r@[0].colors@ == base_colors@,
    {
        let r = ThemeDiscovery { themes: initial_themes(base_colors) };
        assert(theme_names(r@).len() == 1);
        r
    }

    /// The name and format under which the file at `path` is loaded, or
    /// `None` when discovery skips it.
    pub fn plan(&self, path: &str) -> (r: Option<(String, ThemeFormat)>)
        ensures
            match r {
                Some((name, format)) => theme_plan_spec(path@, theme_names(self@)) == Some(
                    (name@, format),
                ),
                None => theme_plan_spec(path@, theme_names(self@)) is None,
            },
    {
        theme_file_plan(path, self.themes.as_slice())
    }

    /// Lists the theme loaded from `path` under `name`; a name that is
    /// listed already is not listed again. Returns whether it was added.
    pub fn add(&mut self, name: &str, path: &str, colors: Colors) -> (added: bool)
        requires
            old(self).wf(),
        ensures
            final(self).wf(),
            added == !theme_names(old(self)@).contains(name@),
            added ==> final(self)@.len() == old(self)@.len() + 1 && final(self)@.take(
                old(self)@.len() as int,
            ) == old(self)@ && final(self)@.last().name@ == name@ && final(self)@.last().path@
                == path@ && final(self)@.last().colors@ == colors@,
            !added ==> final(self)@ == old(self)@,
    {
        let taken = has_theme(self.themes.as_slice(), name);
        proof {
            let names = theme_names(self.themes@);
            if taken {
                let i = choose|i: int|
                    0 <= i < self.themes@.len() && (#[trigger] self.themes@[i]).name@ == name@;
                assert(names[i] == name@);
            } else {
                assert forall|i: int| 0 <= i < names.len() implies names[i] != name@ by {
                    assert(self.themes@[i].name@ != name@);
                }
            }
        }
        if taken {
            return false;
        }
        let t = Theme::new(name, path, colors);
        proof {
            lemma_names_push(self.themes@, t);
        }
        let ghost before = self.themes@;
        self.themes.push(t);
        assert(self.themes@.take(before.len() as int) =~= before);
        true
    }

    /// The themes listed, in the order found; each name once.
    pub fn into_themes(self) -> (r: Vec<Theme>)
        requires
            self.wf(),
        ensures
            r@ == self@,
            theme_names(r@).no_duplicates(),
    {
        self.themes
    }
}

/// Discovery lists each theme name once: a file it loads brings a name not
/// listed yet, so adding it keeps the names distinct.
pub proof fn law_theme_names_stay_distinct(path: Seq<char>, names: Seq<Seq<char>>)
    requires
        names.no_duplicates(),
        theme_plan_spec(path, names) is Some,
    ensures
        !names.contains(theme_plan_spec(path, names).unwrap().0),
        names.push(theme_plan_spec(path, names).unwrap().0).no_duplicates(),
{
    let n = theme_plan_spec(path, names).unwrap().0;
    assert forall|i: int, j: int|
        0 <= i < names.push(n).len() && 0 <= j < names.push(n).len() && i != j implies names.push(
            n,
        )[i] != names.push(n)[j] by {
        if i < names.len() && j < names.len() {
        } else if i == names.len() {
            assert(names[j] != n);
        } else {
            assert(names[i] != n);
        }
    }
}

} // verus!
