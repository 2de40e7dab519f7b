//! Tables of configuration overrides: `(section, key, value)` entries.
use vstd::prelude::*;

use crate::colors;
use crate::text;

verus! {

/// An override value: a boolean, an integer, a string, or an array of strings.
#[derive(Debug, Clone)]
pub enum OverrideValue {
    Boolean(bool),
    Integer(i64),
    Text(String),
    Array(Vec<String>),
}

/// An override value as plain values.
pub enum OverrideView {
    Boolean(bool),
    Integer(i64),
    Text(Seq<char>),
    Array(Seq<Seq<char>>),
}

impl View for OverrideValue {
    type V = OverrideView;

    open spec fn view(&self) -> OverrideView {
        match self {
            OverrideValue::Boolean(b) => OverrideView::Boolean(*b),
            OverrideValue::Integer(i) => OverrideView::Integer(*i),
            OverrideValue::Text(s) => OverrideView::Text(s@),
            OverrideValue::Array(xs) => OverrideView::Array(xs.deep_view()),
        }
    }
}

pub type EntryView = (Seq<char>, Seq<char>, OverrideView);

pub open spec fn entry_of(e: (String, String, OverrideValue)) -> EntryView {
    (e.0@, e.1@, e.2@)
}

pub open spec fn entries_of(es: Seq<(String, String, OverrideValue)>) -> Seq<EntryView> {
    es.map_values(|e: (String, String, OverrideValue)| entry_of(e))
}

/// The value that the last entry for `(section, key)` gives, if any.
pub open spec fn lookup(es: Seq<EntryView>, section: Seq<char>, key: Seq<char>) -> Option<
    OverrideView,
>
    decreases es.len(),
{
    if es.len() == 0 {
        None
    } else if es.last().0 == section && es.last().1 == key {
        Some(es.last().2)
    } else {
        lookup(es.drop_last(), section, key)
    }
}

/// Overrides in the order they were set; for one `(section, key)` the
/// entry set last is the one that counts.
#[derive(Debug)]
pub struct OverrideTable {
    entries: Vec<(String, String, OverrideValue)>,
}

impl OverrideTable {
    pub closed spec fn entries_view(&self) -> Seq<EntryView> {
        entries_of(self.entries@)
    }

    pub fn new() -> (r: Self)
        ensures
            r.entries_view() == Seq::<EntryView>::empty(),
    {
        let r = OverrideTable { entries: Vec::new() };
        assert(r.entries_view() =~= Seq::<EntryView>::empty());
        r
    }

    pub fn is_empty(&self) -> (r: bool)
        ensures
            r == (self.entries_view().len() == 0),
    {
        self.entries.len() == 0
    }

    pub fn len(&self) -> (r: usize)
        ensures
            r == self.entries_view().len(),
    {
        self.entries.len()
    }

    pub fn entries(&self) -> (r: &[(String, String, OverrideValue)])
        ensures
            entries_of(r@) == self.entries_view(),
    {
        self.entries.as_slice()
    }

    /// Sets `key` of `section` to `value`.
    pub fn insert(&mut self, section: String, key: String, value: OverrideValue)
        ensures
            final(self).entries_view() == old(self).entries_view().push(
                (section@, key@, value@),
            ),
    {
        let ghost before = self.entries_view();
        self.entries.push((section, key, value));
        assert(self.entries_view() =~= before.push(entry_of(self.entries@.last())));
    }

    /// The value set last for `key` of `section`.
    pub fn get(&self, section: &str, key: &str) -> (r: Option<OverrideValue>)
        ensures
            match r {
                Some(v) => lookup(self.entries_view(), section@, key@) == Some(v@),
                None => lookup(self.entries_view(), section@, key@) == None::<OverrideView>,
            },
    {
        let mut i = self.entries.len();
        assert(self.entries_view().take(i as int) =~= self.entries_view());
        while i > 0
            invariant
                i <= self.entries@.len(),
                lookup(self.entries_view(), section@, key@) == lookup(
                    self.entries_view().take(i as int),
                    section@,
                    key@,
                ),
            decreases i,
        {
            let ghost es = self.entries_view().take(i as int);
            assert(es.last() == entry_of(self.entries@[i - 1]));
            assert(es.drop_last() =~= self.entries_view().take(i - 1));
            if text::str_equal(self.entries[i - 1].0.as_str(), section) && text::str_equal(
                self.entries[i - 1].1.as_str(),
                key,
            ) {
                return Some(clone_value(&self.entries[i - 1].2));
            }
            i = i - 1;
        }
        assert(self.entries_view().take(0) =~= Seq::<EntryView>::empty());
        None
    }
}

pub fn clone_value(v: &OverrideValue) -> (r: OverrideValue)
    ensures
        r@ == v@,
{
    match v {
        OverrideValue::Boolean(b) => OverrideValue::Boolean(*b),
        OverrideValue::Integer(i) => OverrideValue::Integer(*i),
        OverrideValue::Text(s) => OverrideValue::Text(s.clone()),
        OverrideValue::Array(xs) => OverrideValue::Array(crate::colors::clone_strings(xs)),
    }
}


// ---------------------------------------------------------------------------
// Values written as text
// ---------------------------------------------------------------------------

/// The parts of `s` between `c` separators (`str::split`), kept even when
/// empty.
pub open spec fn split_char(s: Seq<char>, c: char) -> Seq<Seq<char>>
    decreases s.len(),
{
    match text::find_char(s, c) {
        Some(i) => {
            proof {
                text::lemma_find_char(s, c);
            }
            seq![s.take(i)] + split_char(s.skip(i + 1), c)
        },
        None => seq![s],
    }
}

proof fn lemma_join_front(x: Seq<char>, ys: Seq<Seq<char>>, sep: Seq<char>)
    requires
        ys.len() >= 1,
    ensures
        text::join_seq(seq![x] + ys, sep) == x + sep + text::join_seq(ys, sep),
    decreases ys.len(),
{
    let zs = seq![x] + ys;
    assert(zs.drop_last() =~= seq![x] + ys.drop_last());
    assert(zs.last() == ys.last());
    if ys.len() == 1 {
        assert(seq![x] + ys.drop_last() =~= seq![x]);
        assert(text::join_seq(seq![x], sep) == x);
        assert(text::join_seq(ys, sep) == ys[0]);
    } else {
        lemma_join_front(x, ys.drop_last(), sep);
        assert(text::join_seq(zs, sep) =~= x + sep + text::join_seq(ys, sep));
    }
}

/// `split_char` cuts `s` at each `c`: there is at least one part, no part
/// holds `c`, and the parts joined again with `c` give back `s`.
pub proof fn law_split_char_parts(s: Seq<char>, c: char)
    ensures
        split_char(s, c).len() >= 1,
        text::join_seq(split_char(s, c), seq![c]) == s,
        forall|i: int, j: int|
            0 <= i < split_char(s, c).len() && 0 <= j < split_char(s, c)[i].len() ==> #[trigger] split_char(
                s,
                c,
            )[i][j] != c,
    decreases s.len(),
{
    text::lemma_find_char(s, c);
    match text::find_char(s, c) {
        Some(k) => {
            let rest = s.skip(k + 1);
            law_split_char_parts(rest, c);
            let tail = split_char(rest, c);
            let parts = split_char(s, c);
            assert(parts == seq![s.take(k)] + tail);
            lemma_join_front(s.take(k), tail, seq![c]);
            assert(s.take(k) + seq![c] + rest =~= s);
            assert forall|i: int, j: int|
                0 <= i < parts.len() && 0 <= j < parts[i].len() implies #[trigger] parts[i][j]
                != c by {
                if i == 0 {
                    assert(parts[0][j] == s[j]);
                } else {
                    assert(parts[i] == tail[i - 1]);
                }
            }
        },
        None => {
            assert(split_char(s, c) == seq![s]);
            assert(text::join_seq(seq![s], seq![c]) == s);
        },
    }
}

/// Each part trimmed.
pub open spec fn trim_all(ps: Seq<Seq<char>>) -> Seq<Seq<char>> {
    ps.map_values(|p: Seq<char>| text::trim_seq(p))
}

/// A value given in the environment: `true` and `false` in any ASCII case
/// are booleans, a decimal `i64` is an integer, anything else is text.
pub open spec fn env_value(v: Seq<char>) -> OverrideView {
    if text::lower_seq(v) == text::lower_seq("true"@) {
        OverrideView::Boolean(true)
    } else if text::lower_seq(v) == text::lower_seq("false"@) {
        OverrideView::Boolean(false)
    } else {
        match text::parse_i64_spec(v) {
            Some(n) => OverrideView::Integer(n),
            None => OverrideView::Text(v),
        }
    }
}

/// A value given on the command line: as in the environment, except that a
/// value holding a comma and not starting with `"` is an array of its
/// comma-separated parts, each trimmed.
pub open spec fn cli_value(v: Seq<char>) -> OverrideView {
    match env_value(v) {
        OverrideView::Text(_) => if text::find_char(v, ',') is Some && !(v.len() > 0 && v[0]
            == '"') {
            OverrideView::Array(trim_all(split_char(v, ',')))
        } else {
            OverrideView::Text(v)
        },
        other => other,
    }
}

/// A list read from a command-line value holds one item per comma-separated
/// part of the value, in order, and each item is its part with the white
/// space at both ends removed.
pub proof fn law_cli_list_items_are_trimmed_parts(v: Seq<char>)
    ensures
        match cli_value(v) {
            OverrideView::Array(xs) => {
                &&& xs.len() == split_char(v, ',').len()
                &&& forall|i: int|
                    0 <= i < xs.len() ==> text::is_trimmed_from(
                        #[trigger] xs[i],
                        split_char(v, ',')[i],
                    )
            },
            _ => true,
        },
{
    match cli_value(v) {
        OverrideView::Array(xs) => {
            let parts = split_char(v, ',');
            assert(xs == trim_all(parts));
            assert forall|i: int| 0 <= i < xs.len() implies text::is_trimmed_from(
                #[trigger] xs[i],
                parts[i],
            ) by {
                text::lemma_trim_seq(parts[i]);
            }
        },
        _ => {},
    }
}

/// The trimmed comma-separated parts of `x[lo..hi]`.
fn split_commas_trimmed(x: &[char], lo: usize, hi: usize) -> (r: Vec<String>)
    requires
        lo <= hi <= x.len(),
    ensures
        r.deep_view() == trim_all(split_char(x@.subrange(lo as int, hi as int), ',')),
{
    let mut r: Vec<String> = Vec::new();
    let mut start = lo;
    assert(r.deep_view() + trim_all(split_char(x@.subrange(lo as int, hi as int), ','))
        =~= trim_all(split_char(x@.subrange(lo as int, hi as int), ',')));
    loop
        invariant
            lo <= start <= hi <= x.len(),
            r.deep_view() + trim_all(split_char(x@.subrange(start as int, hi as int), ','))
                == trim_all(split_char(x@.subrange(lo as int, hi as int), ',')),
        decreases hi - start,
    {
        let ghost rest = x@.subrange(start as int, hi as int);
        let ghost before = r.deep_view();
        match text::find_in_range(x, start, hi, ',') {
            Some(k) => {
                let (a, b) = text::trim_bounds(x, start, k);
                r.push(text::string_of_range(x, a, b));
                proof {
                    assert(rest.take(k - start) =~= x@.subrange(start as int, k as int));
                    assert(rest.skip(k - start + 1) =~= x@.subrange(k + 1, hi as int));
                    let tail = split_char(x@.subrange(k + 1, hi as int), ',');
                    assert(split_char(rest, ',') == seq![rest.take(k - start)] + tail);
                    assert(trim_all(split_char(rest, ',')) =~= seq![
                        text::trim_seq(rest.take(k - start)),
                    ] + trim_all(tail));
                    assert(r.deep_view() =~= before.push(x@.subrange(a as int, b as int)));
                    assert(r.deep_view() + trim_all(tail) =~= before + trim_all(
                        split_char(rest, ','),
                    ));
                }
                start = k + 1;
            },
            None => {
                let (a, b) = text::trim_bounds(x, start, hi);
                r.push(text::string_of_range(x, a, b));
                proof {
                    assert(split_char(rest, ',') == seq![rest]);
                    assert(trim_all(split_char(rest, ',')) =~= seq![text::trim_seq(rest)]);
                    assert(r.deep_view() =~= before.push(x@.subrange(a as int, b as int)));
                    assert(r.deep_view() =~= before + trim_all(split_char(rest, ',')));
                }
                return r;
            },
        }
    }
}

fn env_value_of(v: &str) -> (r: OverrideValue)
    ensures
        r@ == env_value(v@),
{
    if colors::eq_ignore_ascii_case(v, "true") {
        OverrideValue::Boolean(true)
    } else if colors::eq_ignore_ascii_case(v, "false") {
        OverrideValue::Boolean(false)
    } else {
        match text::parse_i64(v) {
            Some(n) => OverrideValue::Integer(n),
            None => OverrideValue::Text(text::str_to_string(v)),
        }
    }
}

fn cli_value_of(v: &str) -> (r: OverrideValue)
    ensures
        r@ == cli_value(v@),
{
    let e = env_value_of(v);
    match e {
        OverrideValue::Text(_) => {
            let x = text::chars_of(v);
            let n = x.len();
            assert(x@.subrange(0, n as int) == x@);
            let has_comma = text::find_in_range(x.as_slice(), 0, n, ',').is_some();
            if has_comma && !(n > 0 && x[0] == '"') {
                OverrideValue::Array(split_commas_trimmed(x.as_slice(), 0, n))
            } else {
                OverrideValue::Text(text::str_to_string(v))
            }
        },
        other => other,
    }
}

// ---------------------------------------------------------------------------
// Overrides from the command line
// ---------------------------------------------------------------------------

/// The configuration sections that command-line flags may name.
pub open spec fn known_section(s: Seq<char>) -> bool {
    s == "colors"@ || s == "functions"@ || s == "strings"@ || s == "behavior"@ || s
        == "logging"@ || s == "auth"@
}

/// Position of the first `_` or `-`.
pub open spec fn find_key_sep(s: Seq<char>) -> Option<int>
    decreases s.len(),
{
    if s.len() == 0 {
        None
    } else if s[0] == '_' || s[0] == '-' {
        Some(0)
    } else {
        match find_key_sep(s.drop_first()) {
            Some(i) => Some(i + 1),
            None => None,
        }
    }
}

proof fn lemma_find_key_sep(s: Seq<char>)
    ensures
        match find_key_sep(s) {
            Some(i) => 0 <= i < s.len() && (s[i] == '_' || s[i] == '-') && forall|j: int|
                0 <= j < i ==> s[j] != '_' && s[j] != '-',
            None => forall|j: int| 0 <= j < s.len() ==> s[j] != '_' && s[j] != '-',
        },
    decreases s.len(),
{
    if s.len() > 0 {
        lemma_find_key_sep(s.drop_first());
        assert forall|j: int| 1 <= j < s.len() implies s[j] == s.drop_first()[j - 1] by {}
    }
}

pub open spec fn dashes_to_underscores(s: Seq<char>) -> Seq<char> {
    s.map_values(|c: char| if c == '-' { '_' } else { c })
}

/// The section, key and inline value that a command-line argument names,
/// when it is a configuration flag: `--<section>_<key>[=value]` or
/// `--<section>-<key>[=value]`, where the section (lower-cased) is a known
/// one and the key (lower-cased, `-` turned into `_`) is not empty.
pub open spec fn cli_flag(arg: Seq<char>) -> Option<(Seq<char>, Seq<char>, Option<Seq<char>>)> {
    if !text::starts_with_seq(arg, "--"@) || arg == "--"@ {
        None
    } else {
        let body = arg.skip(2);
        let (full_key, inline) = match text::split_once_seq(body, '=') {
            Some((k, v)) => (k, Some(v)),
            None => (body, None),
        };
        let (sc, ic) = match find_key_sep(full_key) {
            Some(p) => (full_key.take(p), full_key.skip(p + 1)),
            None => (Seq::<char>::empty(), Seq::<char>::empty()),
        };
        let section = text::unicode_lower(sc);
        let item = dashes_to_underscores(text::unicode_lower(ic));
        if known_section(section) && item.len() > 0 {
            Some((section, item, inline))
        } else {
            None
        }
    }
}

/// The override that `section.key=value` (the argument of `--set`) names:
/// section and key lower-cased, dashes in the key read as underscores, the
/// value typed as on the command line. `None` unless the section is known
/// and the key is not empty.
pub open spec fn set_pair(arg: Seq<char>) -> Option<EntryView> {
    match text::split_once_seq(arg, '=') {
        Some((path, v)) => match text::split_once_seq(path, '.') {
            Some((sc, ic)) => {
                let section = text::unicode_lower(sc);
                let item = dashes_to_underscores(text::unicode_lower(ic));
                if known_section(section) && item.len() > 0 {
                    Some((section, item, cli_value(v)))
                } else {
                    None
                }
            },
            None => None,
        },
        None => None,
    }
}

/// The override that one argument of the form `--set=section.key=value`
/// gives.
pub open spec fn inline_set(arg: Seq<char>) -> Option<EntryView> {
    if text::starts_with_seq(arg, "--set="@) {
        set_pair(arg.skip(6))
    } else {
        None
    }
}

/// Reads the arguments from position `i`: configuration flags become table
/// entries and every other argument is kept, in order. `--set` followed by
/// `section.key=value`, or `--set=section.key=value`, sets that key. A flag
/// `--<section>-<key>` without an inline value takes the next argument as
/// its value unless that argument starts with `-`; then its value is
/// `true`.
pub open spec fn cli_scan(
    args: Seq<Seq<char>>,
    i: int,
    table: Seq<EntryView>,
    rest: Seq<Seq<char>>,
) -> (Seq<EntryView>, Seq<Seq<char>>)
    decreases args.len() - i,
{
    if i < 0 || i >= args.len() {
        (table, rest)
    } else if args[i] == "--set"@ && i + 1 < args.len() && set_pair(args[i + 1]) is Some {
        cli_scan(args, i + 2, table.push(set_pair(args[i + 1])->0), rest)
    } else if inline_set(args[i]) is Some {
        cli_scan(args, i + 1, table.push(inline_set(args[i])->0), rest)
    } else {
        match cli_flag(args[i]) {
            Some((section, item, inline)) => match inline {
                Some(v) => cli_scan(args, i + 1, table.push((section, item, cli_value(v))), rest),
                None => if i + 1 < args.len() && !text::starts_with_seq(args[i + 1], "-"@) {
                    cli_scan(args, i + 2, table.push((section, item, cli_value(args[i + 1]))), rest)
                } else {
                    cli_scan(args, i + 1, table.push((section, item, OverrideView::Boolean(true))), rest)
                },
            },
            None => cli_scan(args, i + 1, table, rest.push(args[i])),
        }
    }
}

/// The overrides and the remaining arguments of a command line.
pub open spec fn cli_overrides_spec(args: Seq<Seq<char>>) -> (Seq<EntryView>, Seq<Seq<char>>) {
    cli_scan(args, 0, Seq::empty(), Seq::empty())
}

fn is_known_section(s: &str) -> (r: bool)
    ensures
        r == known_section(s@),
{
    text::str_equal(s, "colors") || text::str_equal(s, "functions") || text::str_equal(s, "strings")
        || text::str_equal(s, "behavior") || text::str_equal(s, "logging") || text::str_equal(
        s,
        "auth",
    )
}

fn dashes_to_underscores_of(s: &str) -> (r: String)
    ensures
        r@ == dashes_to_underscores(s@),
{
    let x = text::chars_of(s);
    let mut r = String::new();
    let mut i: usize = 0;
    while i < x.len()
        invariant
            i <= x@.len(),
            r@ == dashes_to_underscores(x@.take(i as int)),
        decreases x@.len() - i,
    {
        let c = x[i];
        r.push(if c == '-' { '_' } else { c });
        assert(dashes_to_underscores(x@.take(i + 1)) =~= dashes_to_underscores(x@.take(i as int)).push(
            if c == '-' { '_' } else { c },
        ));
        i = i + 1;
    }
    assert(x@.take(x@.len() as int) =~= x@);
    r
}

/// The section, key and inline value of a configuration flag.
fn parse_cli_flag(arg: &str) -> (r: Option<(String, String, Option<String>)>)
    ensures
        match r {
            Some((s, k, v)) => cli_flag(arg@) == Some((s@, k@, colors::opt_string_view(v))),
            None => cli_flag(arg@) is None,
        },
{
    proof {
        reveal_strlit("--");
    }
    if !text::starts_with(arg, "--") || text::str_equal(arg, "--") {
        return None;
    }
    let x = text::chars_of(arg);
    let n = x.len();
    let ghost body = x@.skip(2);
    assert(body =~= x@.subrange(2, n as int));
    let (key_end, inline) = match text::find_in_range(x.as_slice(), 2, n, '=') {
        Some(k) => {
            assert(body.take(k - 2) =~= x@.subrange(2, k as int));
            assert(body.skip(k - 2 + 1) =~= x@.subrange(k + 1, n as int));
            (k, Some(text::string_of_range(x.as_slice(), k + 1, n)))
        },
        None => (n, None),
    };
    let ghost full_key = x@.subrange(2, key_end as int);
    let mut p: usize = 2;
    while p < key_end && x[p] != '_' && x[p] != '-'
        invariant
            2 <= p <= key_end <= n,
            n == x@.len(),
            forall|j: int| 2 <= j < p ==> x@[j] != '_' && x@[j] != '-',
        decreases key_end - p,
    {
        p = p + 1;
    }
    proof {
        lemma_find_key_sep(full_key);
        if p < key_end {
            assert(full_key[p - 2] == x@[p as int]);
            assert(find_key_sep(full_key) == Some(p - 2)) by {
                match find_key_sep(full_key) {
                    Some(q) => {
                        if q < p - 2 {
                            assert(full_key[q] == x@[q + 2]);
                        }
                        if q > p - 2 {
                            assert(full_key[p - 2] == x@[p as int]);
                        }
                    },
                    None => {},
                }
            }
        } else {
            assert(find_key_sep(full_key) is None) by {
                match find_key_sep(full_key) {
                    Some(q) => {
                        assert(full_key[q] == x@[q + 2]);
                    },
                    None => {},
                }
            }
        }
    }
    let (sc, ic) = if p < key_end {
        assert(full_key.take(p - 2) =~= x@.subrange(2, p as int));
        assert(full_key.skip(p - 2 + 1) =~= x@.subrange(p + 1, key_end as int));
        (text::string_of_range(x.as_slice(), 2, p), text::string_of_range(x.as_slice(), p + 1, key_end))
    } else {
        (String::new(), String::new())
    };
    let section = text::to_lowercase(sc.as_str());
    let item = dashes_to_underscores_of(text::to_lowercase(ic.as_str()).as_str());
    if is_known_section(section.as_str()) && item.as_str().unicode_len() > 0 {
        Some((section, item, inline))
    } else {
        None
    }
}

/// The override that `x[lo..hi]`, read as `section.key=value`, names.
fn parse_set_pair(x: &[char], lo: usize, hi: usize) -> (r: Option<(String, String, OverrideValue)>)
    requires
        lo <= hi <= x.len(),
    ensures
        match r {
            Some((sec, key, val)) => set_pair(x@.subrange(lo as int, hi as int)) == Some(
                (sec@, key@, val@),
            ),
            None => set_pair(x@.subrange(lo as int, hi as int)) is None,
        },
{
    let ghost a = x@.subrange(lo as int, hi as int);
    let eq = match text::find_in_range(x, lo, hi, '=') {
        Some(k) => k,
        None => return None,
    };
    let ghost path = a.take(eq - lo);
    assert(path =~= x@.subrange(lo as int, eq as int));
    assert(a.skip(eq - lo + 1) =~= x@.subrange(eq + 1, hi as int));
    let dot = match text::find_in_range(x, lo, eq, '.') {
        Some(d) => d,
        None => return None,
    };
    assert(path.take(dot - lo) =~= x@.subrange(lo as int, dot as int));
    assert(path.skip(dot - lo + 1) =~= x@.subrange(dot + 1, eq as int));
    let sc = text::string_of_range(x, lo, dot);
    let ic = text::string_of_range(x, dot + 1, eq);
    let v = text::string_of_range(x, eq + 1, hi);
    let section = text::to_lowercase(sc.as_str());
    let item = dashes_to_underscores_of(text::to_lowercase(ic.as_str()).as_str());
    if is_known_section(section.as_str()) && item.as_str().unicode_len() > 0 {
        let val = cli_value_of(v.as_str());
        Some((section, item, val))
    } else {
        None
    }
}

/// Extracts configuration overrides given as `--set section.key=value` or
/// as `--<section>_<key>` / `--<section>-<key>` from an argument list,
/// returning the overrides and the remaining arguments.
pub fn extract_cli_overrides(args: &[String]) -> (r: (OverrideTable, Vec<String>))
    ensures
        (r.0.entries_view(), r.1.deep_view()) == cli_overrides_spec(args.deep_view()),
{
    let mut table = OverrideTable::new();
    let mut remaining: Vec<String> = Vec::new();
    let n = args.len();
    let mut i: usize = 0;
    assert(remaining.deep_view() =~= Seq::<Seq<char>>::empty());
    while i < n
        invariant
            n == args@.len(),
            i <= n,
            cli_scan(args.deep_view(), i as int, table.entries_view(), remaining.deep_view())
                == cli_overrides_spec(args.deep_view()),
        decreases n - i,
    {
        let arg = args[i].as_str();
        assert(arg@ == args.deep_view()[i as int]);
        if text::str_equal(arg, "--set") && i + 1 < n {
            let next = text::chars_of(args[i + 1].as_str());
            assert(next@.subrange(0, next@.len() as int) =~= next@);
            assert(args[i + 1 as int]@ == args.deep_view()[i + 1]);
            match parse_set_pair(next.as_slice(), 0, next.len()) {
                Some((section, item, val)) => {
                    proof {
                        reveal_strlit("--set");
                    }
                    table.insert(section, item, val);
                    i = i + 2;
                    continue;
                },
                None => {},
            }
        }
        if text::starts_with(arg, "--set=") {
            let x = text::chars_of(arg);
            proof {
                reveal_strlit("--set=");
            }
            assert(x@.subrange(6, x@.len() as int) =~= arg@.skip(6));
            match parse_set_pair(x.as_slice(), 6, x.len()) {
                Some((section, item, val)) => {
                    proof {
                        reveal_strlit("--set");
                        assert(arg@ != "--set"@);
                    }
                    table.insert(section, item, val);
                    i = i + 1;
                    continue;
                },
                None => {},
            }
        }
        proof {
            reveal_strlit("--set");
            reveal_strlit("--set=");
        }
        match parse_cli_flag(arg) {
            Some((section, item, inline)) => match inline {
                Some(v) => {
                    let val = cli_value_of(v.as_str());
                    table.insert(section, item, val);
                    i = i + 1;
                },
                None => {
                    if i + 1 < n && !text::starts_with(args[i + 1].as_str(), "-") {
                        assert(args[i + 1 as int]@ == args.deep_view()[i + 1]);
                        let val = cli_value_of(args[i + 1].as_str());
                        table.insert(section, item, val);
                        i = i + 2;
                    } else {
                        table.insert(section, item, OverrideValue::Boolean(true));
                        i = i + 1;
                    }
                },
            },
            None => {
                let ghost before = remaining.deep_view();
                remaining.push(args[i].clone());
                assert(remaining.deep_view() =~= before.push(args.deep_view()[i as int]));
                i = i + 1;
            },
        }
    }
    (table, remaining)
}

// ---------------------------------------------------------------------------
// Overrides from the environment
// ---------------------------------------------------------------------------

/// The entry that an environment variable gives, if any: a non-empty value
/// of `RULMEE_<SECTION>_<KEY>` (or `LIDM_<SECTION>_<KEY>`), with section and
/// key lower-cased, unless the section is `conf` or `vt`.
pub open spec fn env_entry(key: Seq<char>, val: Seq<char>) -> Option<EntryView> {
    if val.len() == 0 {
        None
    } else {
        let rest = if text::starts_with_seq(key, "RULMEE_"@) {
            Some(key.skip(7))
        } else if text::starts_with_seq(key, "LIDM_"@) {
            Some(key.skip(5))
        } else {
            None
        };
        match rest {
            None => None,
            Some(r) => match text::split_once_seq(r, '_') {
                None => None,
                Some((s, it)) => {
                    let section = text::unicode_lower(s);
                    if section == "conf"@ || section == "vt"@ {
                        None
                    } else {
                        Some((section, text::unicode_lower(it), env_value(val)))
                    }
                },
            },
        }
    }
}

/// The entries that a list of environment variables gives, in order.
pub open spec fn env_entries(vars: Seq<(Seq<char>, Seq<char>)>) -> Seq<EntryView>
    decreases vars.len(),
{
    if vars.len() == 0 {
        Seq::empty()
    } else {
        let init = env_entries(vars.drop_last());
        match env_entry(vars.last().0, vars.last().1) {
            Some(e) => init.push(e),
            None => init,
        }
    }
}

fn parse_env_var(key: &str, val: &str) -> (r: Option<(String, String, OverrideValue)>)
    ensures
        match r {
            Some(e) => env_entry(key@, val@) == Some(entry_of(e)),
            None => env_entry(key@, val@) is None,
        },
{
    proof {
        reveal_strlit("RULMEE_");
        reveal_strlit("LIDM_");
    }
    if val.unicode_len() == 0 {
        return None;
    }
    let x = text::chars_of(key);
    let n = x.len();
    let start: usize = if text::starts_with(key, "RULMEE_") {
        7
    } else if text::starts_with(key, "LIDM_") {
        5
    } else {
        return None;
    };
    let ghost r = x@.skip(start as int);
    assert(r =~= x@.subrange(start as int, n as int));
    match text::find_in_range(x.as_slice(), start, n, '_') {
        None => None,
        Some(k) => {
            assert(r.take(k - start) =~= x@.subrange(start as int, k as int));
            assert(r.skip(k - start + 1) =~= x@.subrange(k + 1, n as int));
            let section = text::to_lowercase(text::string_of_range(x.as_slice(), start, k).as_str());
            if text::str_equal(section.as_str(), "conf") || text::str_equal(section.as_str(), "vt") {
                return None;
            }
            let item = text::to_lowercase(text::string_of_range(x.as_slice(), k + 1, n).as_str());
            Some((section, item, env_value_of(val)))
        },
    }
}

pub open spec fn vars_view(v: Seq<(String, String)>) -> Seq<(Seq<char>, Seq<char>)> {
    v.map_values(|e: (String, String)| (e.0@, e.1@))
}

/// The overrides that the environment variables give: `RULMEE_<SECTION>_<KEY>`
/// (or `LIDM_<SECTION>_<KEY>`) sets `key` of `section`.
pub fn env_overrides(vars: &[(String, String)]) -> (r: OverrideTable)
    ensures
        r.entries_view() == env_entries(vars_view(vars@)),
{
    let mut table = OverrideTable::new();
    let mut i: usize = 0;
    while i < vars.len()
        invariant
            i <= vars@.len(),
            table.entries_view() == env_entries(vars_view(vars@).take(i as int)),
        decreases vars@.len() - i,
    {
        assert(vars_view(vars@).take(i + 1).drop_last() =~= vars_view(vars@).take(i as int));
        assert(vars_view(vars@).take(i + 1).last() == (vars@[i as int].0@, vars@[i as int].1@));
        match parse_env_var(vars[i].0.as_str(), vars[i].1.as_str()) {
            Some((s, k, v)) => table.insert(s, k, v),
            None => {},
        }
        i = i + 1;
    }
    assert(vars_view(vars@).take(vars@.len() as int) =~= vars_view(vars@));
    table
}

// ---------------------------------------------------------------------------
// The help text of the override flags
// ---------------------------------------------------------------------------

/// The width to which a flag name is padded in the help text.
pub const HELP_FLAG_WIDTH: usize = 38;

/// The first lines of the help text.
pub open spec fn help_header() -> Seq<char> {
    "Configuration Overrides:\n  Any setting can be overridden via --<section>-<key> <value> or RULMEE_<SECTION>_<KEY>=<value>.\n\n"@
}

pub open spec fn underscores_to_dashes(s: Seq<char>) -> Seq<char> {
    s.map_values(|c: char| if c == '_' { '-' } else { c })
}

/// The flag that sets `key` of `section`: `--<section>-<key>`, with each `_`
/// of the key written `-`.
pub open spec fn help_flag(section: Seq<char>, key: Seq<char>) -> Seq<char> {
    "--"@ + section + "-"@ + underscores_to_dashes(key)
}

/// `s` followed by spaces up to `width` characters; `s` itself where it is
/// that long already.
pub open spec fn padded(s: Seq<char>, width: nat) -> Seq<char> {
    if s.len() >= width {
        s
    } else {
        s + Seq::new((width - s.len()) as nat, |i: int| ' ')
    }
}

/// The line of one key: the padded flag and the default as displayed.
pub open spec fn help_line(section: Seq<char>, entry: (Seq<char>, Seq<char>)) -> Seq<char> {
    "    "@ + padded(help_flag(section, entry.0), HELP_FLAG_WIDTH as nat) + " [default: "@ + entry.1
        + "]\n"@
}

/// The lines of the keys of a section, in order.
pub open spec fn help_lines(section: Seq<char>, entries: Seq<(Seq<char>, Seq<char>)>) -> Seq<char>
    decreases entries.len(),
{
    if entries.len() == 0 {
        Seq::empty()
    } else {
        help_lines(section, entries.drop_last()) + help_line(section, entries.last())
    }
}

/// A section of the help text: its name, its key lines and a blank line.
pub open spec fn help_section(section: Seq<char>, entries: Seq<(Seq<char>, Seq<char>)>) -> Seq<
    char,
> {
    "  ["@ + section + "]:\n"@ + help_lines(section, entries) + "\n"@
}

pub open spec fn help_sections(secs: Seq<(Seq<char>, Seq<(Seq<char>, Seq<char>)>)>) -> Seq<char>
    decreases secs.len(),
{
    if secs.len() == 0 {
        Seq::empty()
    } else {
        help_sections(secs.drop_last()) + help_section(secs.last().0, secs.last().1)
    }
}

/// The help text for the given sections, each with its keys and their
/// defaults as displayed.
pub open spec fn help_text_spec(secs: Seq<(Seq<char>, Seq<(Seq<char>, Seq<char>)>)>) -> Seq<char> {
    help_header() + help_sections(secs)
}

pub open spec fn help_entries_view(v: Seq<(String, String)>) -> Seq<(Seq<char>, Seq<char>)> {
    v.map_values(|e: (String, String)| (e.0@, e.1@))
}

pub open spec fn help_sections_view(v: Seq<(String, Vec<(String, String)>)>) -> Seq<
    (Seq<char>, Seq<(Seq<char>, Seq<char>)>),
> {
    v.map_values(|p: (String, Vec<(String, String)>)| (p.0@, help_entries_view(p.1@)))
}

fn push_help_flag(out: &mut String, section: &str, key: &str)
    ensures
        final(out)@ == old(out)@ + padded(help_flag(section@, key@), HELP_FLAG_WIDTH as nat),
{
    let ghost start = out@;
    let mut flag = String::new();
    text::push_str(&mut flag, "--");
    text::push_str(&mut flag, section);
    flag.push('-');
    let k = text::chars_of(key);
    proof {
        reveal_strlit("-");
        assert(underscores_to_dashes(k@.take(0)) =~= Seq::<char>::empty());
        assert(flag@ =~= "--"@ + section@ + "-"@ + underscores_to_dashes(k@.take(0)));
    }
    let mut i: usize = 0;
    while i < k.len()
        invariant
            i <= k@.len(),
            k@ == key@,
            flag@ == "--"@ + section@ + "-"@ + underscores_to_dashes(k@.take(i as int)),
        decreases k@.len() - i,
    {
        let c = k[i];
        flag.push(if c == '_' { '-' } else { c });
        assert(underscores_to_dashes(k@.take(i + 1)) =~= underscores_to_dashes(k@.take(i as int)).push(
            if c == '_' { '-' } else { c },
        ));
        i = i + 1;
    }
    assert(k@.take(k@.len() as int) =~= k@);
    assert(flag@ == help_flag(section@, key@));
    let n = text::chars_of(flag.as_str()).len();
    text::push_str(out, flag.as_str());
    let mut m: usize = n;
    while m < HELP_FLAG_WIDTH
        invariant
            n == help_flag(section@, key@).len(),
            n <= m,
            m <= HELP_FLAG_WIDTH || m == n,
            out@ == start + help_flag(section@, key@) + Seq::new((m - n) as nat, |j: int| ' '),
        decreases HELP_FLAG_WIDTH - m,
    {
        out.push(' ');
        assert(Seq::new((m + 1 - n) as nat, |j: int| ' ') =~= Seq::new((m - n) as nat, |j: int| ' ').push(' '));
        m = m + 1;
    }
    if n >= HELP_FLAG_WIDTH {
        assert(Seq::new((m - n) as nat, |j: int| ' ') =~= Seq::<char>::empty());
        assert(out@ =~= start + help_flag(section@, key@));
    } else {
        assert(m == HELP_FLAG_WIDTH);
    }
}

fn push_help_lines(out: &mut String, section: &str, entries: &Vec<(String, String)>)
    ensures
        final(out)@ == old(out)@ + help_lines(section@, help_entries_view(entries@)),
{
    let ghost start = out@;
    let ghost ev = help_entries_view(entries@);
    let mut i: usize = 0;
    while i < entries.len()
        invariant
            i <= entries@.len(),
            ev == help_entries_view(entries@),
            out@ == start + help_lines(section@, ev.take(i as int)),
        decreases entries@.len() - i,
    {
        let ghost before = out@;
        assert(ev.take(i + 1).drop_last() =~= ev.take(i as int));
        assert(ev.take(i + 1).last() == (entries@[i as int].0@, entries@[i as int].1@));
        text::push_str(out, "    ");
        push_help_flag(out, section, entries[i].0.as_str());
        text::push_str(out, " [default: ");
        text::push_str(out, entries[i].1.as_str());
        text::push_str(out, "]\n");
        assert(out@ =~= before + help_line(section@, ev.take(i + 1).last()));
        assert(help_lines(section@, ev.take(i + 1)) == help_lines(section@, ev.take(i as int))
            + help_line(section@, ev.take(i + 1).last()));
        i = i + 1;
    }
    assert(ev.take(entries@.len() as int) =~= ev);
}

/// The help text listing each override flag of `sections` with its default:
/// the header, then per section a `[name]:` line, one line per key with the
/// flag padded to `HELP_FLAG_WIDTH` and `[default: <value>]`, and a blank
/// line.
pub fn help_text(sections: &[(String, Vec<(String, String)>)]) -> (r: String)
    ensures
        r@ == help_text_spec(help_sections_view(sections@)),
{
    let ghost sv = help_sections_view(sections@);
    let mut out = String::new();
    text::push_str(
        &mut out,
        "Configuration Overrides:\n  Any setting can be overridden via --<section>-<key> <value> or RULMEE_<SECTION>_<KEY>=<value>.\n\n",
    );
    assert(sv.take(0) =~= Seq::<(Seq<char>, Seq<(Seq<char>, Seq<char>)>)>::empty());
    let mut i: usize = 0;
    while i < sections.len()
        invariant
            i <= sections@.len(),
            sv == help_sections_view(sections@),
            out@ == help_header() + help_sections(sv.take(i as int)),
        decreases sections@.len() - i,
    {
        let ghost before = out@;
        assert(sv.take(i + 1).drop_last() =~= sv.take(i as int));
        assert(sv.take(i + 1).last() == sv[i as int]);
        let name = sections[i].0.as_str();
        text::push_str(&mut out, "  [");
        text::push_str(&mut out, name);
        text::push_str(&mut out, "]:\n");
        push_help_lines(&mut out, name, &sections[i].1);
        text::push_str(&mut out, "\n");
        assert(out@ =~= before + help_section(sv[i as int].0, sv[i as int].1));
        i = i + 1;
    }
    assert(sv.take(sections@.len() as int) =~= sv);
    out
}

} // verus!

