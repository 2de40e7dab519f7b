//! Desktop sessions and the `Exec` command lines of their desktop entries.
use vstd::prelude::*;

use crate::colors::opt_string_view;
use crate::paths;
use crate::text;

verus! {

#[derive(Debug, Clone, Copy, PartialEq, Eq, Structural)]
pub enum SessionType {
    Xorg,
    Wayland,
    Shell,
}

#[derive(Debug, Clone)]
pub enum ExecType {
    Shell(String),
    Desktop(Vec<String>),
}

#[derive(Debug, Clone)]
pub struct Session {
    pub name: String,
    pub exec_cmd: ExecType,
    pub session_type: SessionType,
    pub desktop_names: Option<String>,
}

/// The characters a backslash escapes inside double quotes.
pub open spec fn dq_escapable(c: char) -> bool {
    c == '"' || c == '\\' || c == '$' || c == '`'
}

/// The tokenizer of a desktop entry `Exec` line, run from position `i` with
/// the arguments found so far (`args`), the argument being built (`cur`),
/// the open quote character if any (`quote`), and whether the current
/// argument has begun even if it is still empty (`has`).
///
/// Outside quotes: `\` takes the next character literally; `"` or `'` opens
/// a quote; white space ends an argument; `%%` is a literal `%`; `%` followed
/// by an ASCII letter or digit is a field code and is dropped; any other `%`
/// is literal. Inside double quotes `\` before `"`, `\`, `$` or `` ` `` takes
/// that character literally; any other backslash there is itself. Inside a
/// quote every other character is literal until the same quote character
/// closes it. An unclosed quote runs to the end.
pub open spec fn exec_scan(
    s: Seq<char>,
    i: int,
    args: Seq<Seq<char>>,
    cur: Seq<char>,
    quote: Option<char>,
    has: bool,
) -> Seq<Seq<char>>
    decreases s.len() - i,
{
    if i < 0 || i >= s.len() {
        if has || cur.len() > 0 {
            args.push(cur)
        } else {
            args
        }
    } else {
        let c = s[i];
        match quote {
            Some(q) => if q == '"' && c == '\\' && i + 1 < s.len() && dq_escapable(s[i + 1]) {
                exec_scan(s, i + 2, args, cur.push(s[i + 1]), quote, true)
            } else if c == q {
                exec_scan(s, i + 1, args, cur, None, has)
            } else {
                exec_scan(s, i + 1, args, cur.push(c), quote, true)
            },
            None => if c == '\\' {
                if i + 1 < s.len() {
                    exec_scan(s, i + 2, args, cur.push(s[i + 1]), None, true)
                } else {
                    exec_scan(s, i + 1, args, cur, None, has)
                }
            } else if c == '"' || c == '\'' {
                exec_scan(s, i + 1, args, cur, Some(c), true)
            } else if text::is_ws(c) {
                if has || cur.len() > 0 {
                    exec_scan(s, i + 1, args.push(cur), Seq::empty(), None, false)
                } else {
                    exec_scan(s, i + 1, args, cur, None, has)
                }
            } else if c == '%' {
                if i + 1 < s.len() && s[i + 1] == '%' {
                    exec_scan(s, i + 2, args, cur.push('%'), None, true)
                } else if i + 1 < s.len() && text::is_ascii_alnum(s[i + 1]) {
                    exec_scan(s, i + 2, args, cur, None, has)
                } else {
                    exec_scan(s, i + 1, args, cur.push('%'), None, true)
                }
            } else {
                exec_scan(s, i + 1, args, cur.push(c), None, true)
            },
        }
    }
}

/// The arguments of an `Exec` command line.
pub open spec fn parse_exec_spec(s: Seq<char>) -> Seq<Seq<char>> {
    exec_scan(s, 0, Seq::empty(), Seq::empty(), None, false)
}

fn push_arg(args: &mut Vec<String>, cur: &Vec<char>)
    ensures
        final(args).deep_view() == old(args).deep_view().push(cur@),
{
    let a = text::string_of(cur.as_slice());
    let ghost before = args.deep_view();
    args.push(a);
    assert(args.deep_view() =~= before.push(cur@));
}

/// Parses a desktop entry `Exec` command line into separate arguments,
/// handling single/double quotes, escape sequences, and stripping Freedesktop `%` field codes.
pub fn parse_exec_string(exec: &str) -> (r: Vec<String>)
    ensures
        r.deep_view() == parse_exec_spec(exec@),
{
    let s = text::chars_of(exec);
    let n = s.len();
    let mut args: Vec<String> = Vec::new();
    let mut current: Vec<char> = Vec::new();
    let mut in_quote: Option<char> = None;
    let mut has_token = false;
    let mut i: usize = 0;
    assert(args.deep_view() =~= Seq::<Seq<char>>::empty());
    while i < n
        invariant
            n == s@.len(),
            s@ == exec@,
            i <= n,
            exec_scan(s@, i as int, args.deep_view(), current@, in_quote, has_token)
                == parse_exec_spec(exec@),
        decreases n - i,
    {
        let c = s[i];
        match in_quote {
            Some(q) => {
                if q == '"' && c == '\\' && i + 1 < n && (s[i + 1] == '"' || s[i + 1] == '\\'
                    || s[i + 1] == '$' || s[i + 1] == '`') {
                    current.push(s[i + 1]);
                    has_token = true;
                    i = i + 2;
                } else if c == q {
                    in_quote = None;
                    i = i + 1;
                } else {
                    current.push(c);
                    has_token = true;
                    i = i + 1;
                }
            },
            None => {
                if c == '\\' {
                    if i + 1 < n {
                        current.push(s[i + 1]);
                        has_token = true;
                        i = i + 2;
                    } else {
                        i = i + 1;
                    }
                } else if c == '"' || c == '\'' {
                    in_quote = Some(c);
                    has_token = true;
                    i = i + 1;
                } else if text::is_whitespace(c) {
                    if has_token || current.len() > 0 {
                        push_arg(&mut args, &current);
                        current = Vec::new();
                        has_token = false;
                    }
                    i = i + 1;
                } else if c == '%' {
                    if i + 1 < n && s[i + 1] == '%' {
                        current.push('%');
                        has_token = true;
                        i = i + 2;
                    } else if i + 1 < n && text::is_ascii_alphanumeric(s[i + 1]) {
                        i = i + 2;
                    } else {
                        current.push('%');
                        has_token = true;
                        i = i + 1;
                    }
                } else {
                    current.push(c);
                    has_token = true;
                    i = i + 1;
                }
            },
        }
    }
    if has_token || current.len() > 0 {
        push_arg(&mut args, &current);
    }
    args
}

// ---------------------------------------------------------------------------
// Law: a command line written with every character escaped reads back as the
// arguments it was written from.
// ---------------------------------------------------------------------------

/// `w` with a backslash before every character.
pub open spec fn escape_word(w: Seq<char>) -> Seq<char>
    decreases w.len(),
{
    if w.len() == 0 {
        Seq::empty()
    } else {
        seq!['\\', w[0]] + escape_word(w.drop_first())
    }
}

/// The escaped words, separated by single spaces.
pub open spec fn escaped_line(ws: Seq<Seq<char>>) -> Seq<char>
    decreases ws.len(),
{
    if ws.len() == 0 {
        Seq::empty()
    } else if ws.len() == 1 {
        escape_word(ws[0])
    } else {
        escape_word(ws[0]) + seq![' '] + escaped_line(ws.drop_first())
    }
}

proof fn lemma_escape_word_len(w: Seq<char>)
    ensures
        escape_word(w).len() == 2 * w.len(),
    decreases w.len(),
{
    if w.len() > 0 {
        lemma_escape_word_len(w.drop_first());
    }
}

proof fn lemma_scan_escaped_word(
    s: Seq<char>,
    i: int,
    w: Seq<char>,
    args: Seq<Seq<char>>,
    cur: Seq<char>,
    has: bool,
)
    requires
        0 <= i,
        i + 2 * w.len() <= s.len(),
        s.subrange(i, i + 2 * w.len()) == escape_word(w),
    ensures
        exec_scan(s, i, args, cur, None, has) == exec_scan(
            s,
            i + 2 * w.len(),
            args,
            cur + w,
            None,
            has || w.len() > 0,
        ),
    decreases w.len(),
{
    lemma_escape_word_len(w);
    if w.len() == 0 {
        assert(cur + w =~= cur);
    } else {
        let rest = w.drop_first();
        lemma_escape_word_len(rest);
        assert(s[i] == escape_word(w)[0]);
        assert(s[i + 1] == escape_word(w)[1]);
        assert(s.subrange(i + 2, i + 2 * w.len()) =~= escape_word(w).subrange(2, 2 * (w.len() as int)));
        assert(escape_word(w).subrange(2, 2 * (w.len() as int)) =~= escape_word(rest));
        lemma_scan_escaped_word(s, i + 2, rest, args, cur.push(w[0]), true);
        assert(cur.push(w[0]) + rest =~= cur + w);
    }
}

proof fn lemma_scan_escaped_line(s: Seq<char>, i: int, ws: Seq<Seq<char>>, args: Seq<Seq<char>>)
    requires
        0 <= i <= s.len(),
        s.skip(i) == escaped_line(ws),
        forall|k: int| 0 <= k < ws.len() ==> (#[trigger] ws[k]).len() > 0,
    ensures
        exec_scan(s, i, args, Seq::empty(), None, false) == args + ws,
    decreases ws.len(),
{
    if ws.len() == 0 {
        assert(s.skip(i).len() == 0);
        assert(args + ws =~= args);
    } else {
        let w = ws[0];
        lemma_escape_word_len(w);
        let k: int = w.len() as int;
        let e = escaped_line(ws);
        if ws.len() == 1 {
            assert(e == escape_word(w));
        } else {
            assert(e == escape_word(w) + seq![' '] + escaped_line(ws.drop_first()));
        }
        assert(e.len() >= 2 * k);
        assert(e.subrange(0, 2 * k) =~= escape_word(w));
        assert(s.subrange(i, i + 2 * k) =~= s.skip(i).subrange(0, 2 * k));
        lemma_scan_escaped_word(s, i, w, args, Seq::empty(), false);
        assert(Seq::<char>::empty() + w =~= w);
        if ws.len() == 1 {
            assert(i + 2 * k == s.len());
            assert(args + ws =~= args.push(w));
        } else {
            let rest = ws.drop_first();
            assert(s[i + 2 * k] == s.skip(i)[2 * k]);
            assert(s.skip(i)[2 * k] == ' ');
            assert(text::is_ws(' '));
            assert(s.skip(i + 2 * k + 1) =~= s.skip(i).skip(2 * k + 1));
            assert(s.skip(i).skip(2 * k + 1) =~= escaped_line(rest));
            assert forall|j: int| 0 <= j < rest.len() implies (#[trigger] rest[j]).len() > 0 by {
                assert(rest[j] == ws[j + 1]);
            }
            lemma_scan_escaped_line(s, i + 2 * k + 1, rest, args.push(w));
            assert(args.push(w) + rest =~= args + ws);
        }
    }
}

/// Writing each argument with a backslash before every character, and the
/// arguments separated by spaces, gives a command line that
/// `parse_exec_string` reads back as exactly those arguments.
pub proof fn law_escaped_arguments_read_back(ws: Seq<Seq<char>>)
    requires
        forall|k: int| 0 <= k < ws.len() ==> (#[trigger] ws[k]).len() > 0,
    ensures
        parse_exec_spec(escaped_line(ws)) == ws,
{
    let s = escaped_line(ws);
    assert(s.skip(0) =~= s);
    lemma_scan_escaped_line(s, 0, ws, Seq::empty());
    assert(Seq::<Seq<char>>::empty() + ws =~= ws);
}


// ---------------------------------------------------------------------------
// Session desktop entries
// ---------------------------------------------------------------------------

/// The directories read for session desktop entries, in order, each with
/// the kind of session its entries start.
pub open spec fn session_sources_spec() -> Seq<(SessionType, Seq<char>)> {
    seq![
        (SessionType::Xorg, "/usr/share/xsessions"@),
        (SessionType::Xorg, "/usr/local/share/xsessions"@),
        (SessionType::Wayland, "/usr/share/wayland-sessions"@),
        (SessionType::Wayland, "/usr/local/share/wayland-sessions"@),
    ]
}

pub fn session_sources() -> (r: Vec<(SessionType, String)>)
    ensures
        r@.map_values(|p: (SessionType, String)| (p.0, p.1@)) == session_sources_spec(),
{
    let mut r: Vec<(SessionType, String)> = Vec::new();
    r.push((SessionType::Xorg, text::str_to_string("/usr/share/xsessions")));
    r.push((SessionType::Xorg, text::str_to_string("/usr/local/share/xsessions")));
    r.push((SessionType::Wayland, text::str_to_string("/usr/share/wayland-sessions")));
    r.push((SessionType::Wayland, text::str_to_string("/usr/local/share/wayland-sessions")));
    assert(r@.map_values(|p: (SessionType, String)| (p.0, p.1@)) =~= session_sources_spec());
    r
}

/// Whether a file found in a session directory is a desktop entry: its
/// extension is `desktop`.
pub fn is_desktop_file(path: &str) -> (r: bool)
    ensures
        r == (paths::path_extension(path@) == Some("desktop"@)),
{
    match paths::extension_of(path) {
        Some(e) => text::str_equal(e.as_str(), "desktop"),
        None => false,
    }
}

/// What a session desktop entry says, as read from its `[Desktop Entry]`
/// group: whether it is shown (neither `Hidden` nor `NoDisplay` is true),
/// its `Name`, its `Exec` line, and `DesktopNames` given as a string or as
/// a list.
#[derive(Debug)]
pub struct DesktopEntryInfo {
    pub should_show: bool,
    pub name: Option<String>,
    pub exec_line: Option<String>,
    pub desktop_names: Option<String>,
    pub desktop_names_list: Option<Vec<String>>,
}

/// `DesktopNames` as one string: the string form when there is one, else
/// the list joined with `;`.
pub open spec fn desktop_names_spec(e: DesktopEntryInfo) -> Option<Seq<char>> {
    match e.desktop_names {
        Some(s) => Some(s@),
        None => match e.desktop_names_list {
            Some(v) => Some(text::join_seq(v@.map_values(|w: String| w@), ";"@)),
            None => None,
        },
    }
}

pub fn desktop_names_of(entry: &DesktopEntryInfo) -> (r: Option<String>)
    ensures
        opt_string_view(r) == desktop_names_spec(*entry),
{
    match &entry.desktop_names {
        Some(s) => Some(s.clone()),
        None => match &entry.desktop_names_list {
            Some(v) => Some(text::join(v.as_slice(), ";")),
            None => None,
        },
    }
}

/// Whether an entry gives a session: it is shown, has a name and an `Exec`
/// line, and that line holds at least one argument.
pub open spec fn entry_gives_session(e: DesktopEntryInfo) -> bool {
    &&& e.should_show
    &&& e.name is Some
    &&& e.exec_line is Some
    &&& parse_exec_spec(e.exec_line.unwrap()@).len() > 0
}

/// The session of a desktop entry found in a directory of `session_type`,
/// or `None` when the entry gives none.
pub fn session_from_entry(entry: &DesktopEntryInfo, session_type: SessionType) -> (r: Option<
    Session,
>)
    ensures
        r is Some <==> entry_gives_session(*entry),
        r matches Some(s) ==> {
            &&& s.name@ == entry.name.unwrap()@
            &&& s.exec_cmd matches ExecType::Desktop(args)
            &&& args.deep_view() == parse_exec_spec(entry.exec_line.unwrap()@)
            &&& s.session_type == session_type
            &&& opt_string_view(s.desktop_names) == desktop_names_spec(*entry)
        },
{
    if !entry.should_show {
        return None;
    }
    match (&entry.name, &entry.exec_line) {
        (Some(name), Some(exec_line)) => {
            let args = parse_exec_string(exec_line.as_str());
            if args.len() == 0 {
                return None;
            }
            Some(
                Session {
                    name: name.clone(),
                    exec_cmd: ExecType::Desktop(args),
                    session_type,
                    desktop_names: desktop_names_of(entry),
                },
            )
        },
        _ => None,
    }
}

// ---------------------------------------------------------------------------
// Law: a plain command line splits at white space.
// ---------------------------------------------------------------------------

/// The words of `s` from position `i` on, as `str::split_whitespace` gives
/// them: runs of characters other than white space, in order, none empty.
pub open spec fn ws_scan(s: Seq<char>, i: int, words: Seq<Seq<char>>, cur: Seq<char>) -> Seq<
    Seq<char>,
>
    decreases s.len() - i,
{
    if i < 0 || i >= s.len() {
        if cur.len() > 0 {
            words.push(cur)
        } else {
            words
        }
    } else if text::is_ws(s[i]) {
        if cur.len() > 0 {
            ws_scan(s, i + 1, words.push(cur), Seq::empty())
        } else {
            ws_scan(s, i + 1, words, cur)
        }
    } else {
        ws_scan(s, i + 1, words, cur.push(s[i]))
    }
}

pub open spec fn split_whitespace_spec(s: Seq<char>) -> Seq<Seq<char>> {
    ws_scan(s, 0, Seq::empty(), Seq::empty())
}

/// A line with no quote, backslash or `%` holds nothing to interpret.
pub open spec fn plain_exec_line(s: Seq<char>) -> bool {
    forall|k: int|
        0 <= k < s.len() ==> #[trigger] s[k] != '"' && s[k] != '\'' && s[k] != '\\' && s[k]
            != '%'
}

proof fn lemma_plain_scan(s: Seq<char>, i: int, args: Seq<Seq<char>>, cur: Seq<char>, has: bool)
    requires
        plain_exec_line(s),
        0 <= i,
        has == (cur.len() > 0),
    ensures
        exec_scan(s, i, args, cur, None, has) == ws_scan(s, i, args, cur),
    decreases s.len() - i,
{
    if i < s.len() {
        let c = s[i];
        assert(c != '"' && c != '\'' && c != '\\' && c != '%');
        if text::is_ws(c) {
            if cur.len() > 0 {
                lemma_plain_scan(s, i + 1, args.push(cur), Seq::empty(), false);
            } else {
                lemma_plain_scan(s, i + 1, args, cur, has);
            }
        } else {
            lemma_plain_scan(s, i + 1, args, cur.push(c), true);
        }
    }
}

/// An `Exec` line with no quote, backslash or `%` splits exactly as
/// `str::split_whitespace` splits it.
pub proof fn law_plain_line_splits_at_white_space(s: Seq<char>)
    requires
        plain_exec_line(s),
    ensures
        parse_exec_spec(s) == split_whitespace_spec(s),
{
    lemma_plain_scan(s, 0, Seq::empty(), Seq::empty(), false);
}

proof fn lemma_quoted_scan(s: Seq<char>, q: char, w: Seq<char>, i: int)
    requires
        s == seq![q] + w + seq![q],
        q == '"' || q == '\'',
        !w.contains(q),
        q == '"' ==> !w.contains('\\'),
        1 <= i <= w.len() + 1,
    ensures
        exec_scan(s, i, Seq::empty(), w.take(i - 1), Some(q), true) == seq![w],
    decreases w.len() + 1 - i,
{
    if i <= w.len() {
        let c = s[i];
        assert(c == w[i - 1]);
        assert(c != q);
        assert(q == '"' ==> c != '\\');
        assert(w.take(i - 1).push(c) =~= w.take(i));
        lemma_quoted_scan(s, q, w, i + 1);
    } else {
        assert(s.len() == w.len() + 2);
        assert(s[i] == q);
        assert(w.take(i - 1) =~= w);
        assert(Seq::<Seq<char>>::empty().push(w) =~= seq![w]);
        assert(exec_scan(s, i + 1, Seq::empty(), w, None, true) == seq![w]);
    }
}

/// Inside a quote every character but the closing quote is literal (in
/// double quotes, a backslash may escape): a word that holds neither the
/// quote character nor, in double quotes, a backslash, quoted whole, is one
/// argument, exactly that word. In particular the other quote character
/// does not close the quote.
pub proof fn law_quoted_word_is_one_argument(q: char, w: Seq<char>)
    requires
        q == '"' || q == '\'',
        !w.contains(q),
        q == '"' ==> !w.contains('\\'),
    ensures
        parse_exec_spec(seq![q] + w + seq![q]) == seq![w],
{
    let s = seq![q] + w + seq![q];
    assert(s[0] == q);
    assert(w.take(0) =~= Seq::<char>::empty());
    lemma_quoted_scan(s, q, w, 1);
}

/// A word of plain characters: no white space, quote, backslash or `%`.
pub open spec fn plain_word(w: Seq<char>) -> bool {
    forall|k: int|
        0 <= k < w.len() ==> !text::is_ws(#[trigger] w[k]) && w[k] != '"' && w[k] != '\'' && w[k]
            != '\\' && w[k] != '%'
}

proof fn lemma_plain_word_scan(s: Seq<char>, w: Seq<char>, i: int)
    requires
        plain_word(w),
        w.len() <= s.len(),
        s.take(w.len() as int) == w,
        0 <= i <= w.len(),
    ensures
        exec_scan(s, i, Seq::empty(), w.take(i), None, i > 0) == exec_scan(
            s,
            w.len() as int,
            Seq::empty(),
            w,
            None,
            w.len() > 0,
        ),
    decreases w.len() - i,
{
    if i < w.len() {
        let c = s[i];
        assert(c == s.take(w.len() as int)[i]);
        assert(c == w[i]);
        assert(!text::is_ws(c) && c != '"' && c != '\'' && c != '\\' && c != '%');
        assert(w.take(i).push(c) =~= w.take(i + 1));
        lemma_plain_word_scan(s, w, i + 1);
    } else {
        assert(w.take(i) =~= w);
    }
}

/// `%` followed by an ASCII letter or digit is a field code and is dropped,
/// alone or inside a word, and `%%` is a literal `%`: after a word of plain
/// characters, ` %x` adds no argument, `%x` adds nothing to the word, and
/// `%%` adds one `%`.
pub proof fn law_field_codes_are_dropped(w: Seq<char>, x: char)
    requires
        w.len() > 0,
        plain_word(w),
        text::is_ascii_alnum(x),
    ensures
        parse_exec_spec(w + seq![' ', '%', x]) == seq![w],
        parse_exec_spec(w + seq!['%', x]) == seq![w],
        parse_exec_spec(w + seq!['%', '%']) == seq![w.push('%')],
{
    let n = w.len() as int;
    let e = Seq::<Seq<char>>::empty();
    assert(w.take(0) =~= Seq::<char>::empty());
    let s1 = w + seq![' ', '%', x];
    assert(s1.take(n) =~= w);
    lemma_plain_word_scan(s1, w, 0);
    assert(s1[n] == ' ' && s1[n + 1] == '%' && s1[n + 2] == x);
    assert(text::is_ws(' '));
    assert(x != '%');
    assert(exec_scan(s1, n + 3, e.push(w), Seq::empty(), None, false) == e.push(w));
    assert(exec_scan(s1, n + 1, e.push(w), Seq::empty(), None, false) == e.push(w));
    assert(e.push(w) =~= seq![w]);
    let s2 = w + seq!['%', x];
    assert(s2.take(n) =~= w);
    lemma_plain_word_scan(s2, w, 0);
    assert(s2[n] == '%' && s2[n + 1] == x);
    assert(exec_scan(s2, n + 2, e, w, None, true) == e.push(w));
    let s3 = w + seq!['%', '%'];
    assert(s3.take(n) =~= w);
    lemma_plain_word_scan(s3, w, 0);
    assert(s3[n] == '%' && s3[n + 1] == '%');
    assert(exec_scan(s3, n + 2, e, w.push('%'), None, true) == e.push(w.push('%')));
    assert(e.push(w.push('%')) =~= seq![w.push('%')]);
}

/// Inside double quotes a backslash before `"`, `\\`, `$` or `` ` `` gives
/// that character itself, and the quote stays open after it.
pub proof fn law_double_quote_escapes(e: char)
    requires
        dq_escapable(e),
    ensures
        parse_exec_spec(seq!['"', '\\', e, '"']) == seq![seq![e]],
{
    let s = seq!['"', '\\', e, '"'];
    let em = Seq::<Seq<char>>::empty();
    assert(exec_scan(s, 4, em, seq![e], None, true) == em.push(seq![e]));
    assert(exec_scan(s, 3, em, seq![e], Some('"'), true) == em.push(seq![e]));
    assert(Seq::<char>::empty().push(e) =~= seq![e]);
    assert(exec_scan(s, 1, em, Seq::empty(), Some('"'), true) == em.push(seq![e]));
    assert(em.push(seq![e]) =~= seq![seq![e]]);
}

} // verus!
