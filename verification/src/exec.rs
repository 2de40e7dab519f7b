//! The environment and the command line of a session that is about to start.
use vstd::prelude::*;

use crate::env_map::EnvMap;
use crate::env_map;
use crate::text;

verus! {

// ---------------------------------------------------------------------------
// Environment files
// ---------------------------------------------------------------------------

pub open spec fn export_word() -> Seq<char> {
    seq!['e', 'x', 'p', 'o', 'r', 't']
}

/// A value wrapped in a matching pair of `"` or `'` loses them.
pub open spec fn unquote_value(v: Seq<char>) -> Seq<char> {
    if v.len() >= 2 && ((v[0] == '"' && v.last() == '"') || (v[0] == '\'' && v.last() == '\'')) {
        v.subrange(1, v.len() - 1)
    } else {
        v
    }
}

/// The assignment that one line of an environment file makes, if any.
///
/// The line is trimmed; blank lines and `#` comments make none. A leading
/// `export` followed by a space or tab is dropped. The rest must hold `=`;
/// the name before the first `=` and the value after it are trimmed, the name
/// must not be empty, and a quoted value loses its quotes.
pub open spec fn env_line_spec(line: Seq<char>) -> Option<(Seq<char>, Seq<char>)> {
    let l = text::trim_seq(line);
    if l.len() == 0 || l[0] == '#' {
        None
    } else {
        let body = if text::starts_with_seq(l, export_word()) && l.len() > 6 && (l[6] == ' '
            || l[6] == '\t') {
            text::trim_start_seq(l.skip(6))
        } else {
            l
        };
        match text::split_once_seq(body, '=') {
            Some((k, v)) => {
                let key = text::trim_seq(k);
                if key.len() == 0 {
                    None
                } else {
                    Some((key, unquote_value(text::trim_seq(v))))
                }
            },
            None => None,
        }
    }
}

/// The assignments that a list of lines makes, in order.
pub open spec fn env_pairs_spec(lines: Seq<Seq<char>>) -> Seq<(Seq<char>, Seq<char>)>
    decreases lines.len(),
{
    if lines.len() == 0 {
        Seq::empty()
    } else {
        let init = env_pairs_spec(lines.drop_last());
        match env_line_spec(lines.last()) {
            Some(p) => init.push(p),
            None => init,
        }
    }
}

/// The assignments of an environment file, in order.
pub open spec fn parse_env_spec(content: Seq<char>) -> Seq<(Seq<char>, Seq<char>)> {
    env_pairs_spec(text::lines_seq(content))
}

/// The assignment made by one line of an environment file.
pub fn parse_env_line(line: &str) -> (r: Option<(String, String)>)
    ensures
        match r {
            Some(p) => env_line_spec(line@) == Some((p.0@, p.1@)),
            None => env_line_spec(line@) == None::<(Seq<char>, Seq<char>)>,
        },
{
    let x = text::chars_of(line);
    let n = x.len();
    assert(x@.subrange(0, n as int) == x@);
    let (a, b) = text::trim_bounds(x.as_slice(), 0, n);
    let ghost l = x@.subrange(a as int, b as int);
    if a == b || x[a] == '#' {
        return None;
    }
    let mut start = a;
    if b - a > 6 && text::range_equals(x.as_slice(), a, a + 6, "export") && (x[a + 6] == ' '
        || x[a + 6] == '\t') {
        assert(l.take(6) =~= x@.subrange(a as int, a + 6));
        assert(export_word() == "export"@) by {
            reveal_strlit("export");
        }
        assert(l[6] == x@[a + 6]);
        assert(l.skip(6) =~= x@.subrange(a + 6, b as int));
        start = text::skip_ws_forward(x.as_slice(), a + 6, b);
    } else {
        proof {
            if text::starts_with_seq(l, export_word()) && l.len() > 6 && (l[6] == ' ' || l[6]
                == '\t') {
                assert(l.take(6) =~= x@.subrange(a as int, a + 6));
                assert(export_word() == "export"@) by {
                    reveal_strlit("export");
                }
                assert(false);
            }
        }
    }
    let ghost body = x@.subrange(start as int, b as int);
    let ghost spec_body = if text::starts_with_seq(l, export_word()) && l.len() > 6 && (l[6]
        == ' ' || l[6] == '\t') {
        text::trim_start_seq(l.skip(6))
    } else {
        l
    };
    assert(body == spec_body);
    assert(text::trim_seq(line@) == l);
    match text::find_in_range(x.as_slice(), start, b, '=') {
        Some(k) => {
            assert(text::split_once_seq(body, '=') == Some((body.take(k - start), body.skip(k - start + 1))));
            let (ka, kb) = text::trim_bounds(x.as_slice(), start, k);
            if ka == kb {
                assert(body.take(k - start) =~= x@.subrange(start as int, k as int));
                return None;
            }
            let (va, vb) = text::trim_bounds(x.as_slice(), k + 1, b);
            let (qa, qb) = if vb - va >= 2 && ((x[va] == '"' && x[vb - 1] == '"') || (x[va]
                == '\'' && x[vb - 1] == '\'')) {
                (va + 1, vb - 1)
            } else {
                (va, vb)
            };
            let key = text::string_of_range(x.as_slice(), ka, kb);
            let value = text::string_of_range(x.as_slice(), qa, qb);
            proof {
                assert(body.take(k - start) =~= x@.subrange(start as int, k as int));
                assert(body.skip(k - start + 1) =~= x@.subrange(k + 1, b as int));
                let v = x@.subrange(va as int, vb as int);
                assert(unquote_value(v) =~= x@.subrange(qa as int, qb as int));
            }
            Some((key, value))
        },
        None => None,
    }
}

/// The assignments of the environment file whose text is `content`, in order.
pub fn parse_env_content(content: &str) -> (r: Vec<(String, String)>)
    ensures
        env_map::pairs_view(r@) == parse_env_spec(content@),
{
    let ls = text::lines(content);
    let mut r: Vec<(String, String)> = Vec::new();
    let mut i: usize = 0;
    assert(ls.deep_view().take(0) =~= Seq::<Seq<char>>::empty());
    assert(env_map::pairs_view(r@) =~= Seq::<(Seq<char>, Seq<char>)>::empty());
    while i < ls.len()
        invariant
            i <= ls@.len(),
            ls.deep_view() == text::lines_seq(content@),
            env_map::pairs_view(r@) == env_pairs_spec(ls.deep_view().take(i as int)),
        decreases ls@.len() - i,
    {
        let ghost before = r@;
        let ghost taken = ls.deep_view().take(i + 1);
        assert(taken.drop_last() =~= ls.deep_view().take(i as int));
        assert(taken.last() == ls@[i as int]@);
        match parse_env_line(ls[i].as_str()) {
            Some(p) => {
                r.push(p);
                assert(env_map::pairs_view(r@) =~= env_map::pairs_view(before).push(env_map::entry_view(r@.last())));
            },
            None => {},
        }
        i = i + 1;
    }
    assert(ls.deep_view().take(ls@.len() as int) =~= ls.deep_view());
    r
}

// ---------------------------------------------------------------------------
// Paths of the files that are sourced
// ---------------------------------------------------------------------------

/// `PathBuf::join`: an absolute component replaces the base; otherwise the
/// component is appended, with a `/` between them unless the base is empty
/// or already ends with one.
pub open spec fn path_join_spec(base: Seq<char>, comp: Seq<char>) -> Seq<char> {
    if comp.len() > 0 && comp[0] == '/' {
        comp
    } else if base.len() == 0 {
        comp
    } else if base.last() == '/' {
        base + comp
    } else {
        base + seq!['/'] + comp
    }
}

pub fn path_join(base: &str, comp: &str) -> (r: String)
    ensures
        r@ == path_join_spec(base@, comp@),
{
    let b = text::chars_of(base);
    let c = text::chars_of(comp);
    if c.len() > 0 && c[0] == '/' {
        return text::string_of(c.as_slice());
    }
    let mut r = text::string_of(b.as_slice());
    if b.len() > 0 && b[b.len() - 1] != '/' {
        r.push('/');
    }
    text::push_str(&mut r, comp);
    r
}

pub open spec fn strings_view(v: Seq<String>) -> Seq<Seq<char>> {
    v.map_values(|s: String| s@)
}

proof fn lemma_strings_view_push(v: Seq<String>, x: String)
    ensures
        strings_view(v.push(x)) == strings_view(v).push(x@),
{
    assert(strings_view(v.push(x)) =~= strings_view(v).push(x@));
}

/// The files that are sourced, in order: every system file, then, when the
/// home directory is known, every user file relative to it.
pub open spec fn source_paths_spec(
    system_sources: Seq<Seq<char>>,
    home_dir: Seq<char>,
    user_sources: Seq<Seq<char>>,
) -> Seq<Seq<char>> {
    if home_dir.len() == 0 {
        system_sources
    } else {
        system_sources + user_sources.map_values(|r: Seq<char>| path_join_spec(home_dir, r))
    }
}

pub fn source_paths(system_sources: &[String], home_dir: &str, user_sources: &[String]) -> (r:
    Vec<String>)
    ensures
        strings_view(r@) == source_paths_spec(
            strings_view(system_sources@),
            home_dir@,
            strings_view(user_sources@),
        ),
{
    let mut r: Vec<String> = Vec::new();
    let mut i: usize = 0;
    while i < system_sources.len()
        invariant
            i <= system_sources@.len(),
            strings_view(r@) == strings_view(system_sources@).take(i as int),
        decreases system_sources@.len() - i,
    {
        let ghost before = r@;
        r.push(system_sources[i].clone());
        proof {
            lemma_strings_view_push(before, system_sources@[i as int]);
            assert(strings_view(system_sources@).take(i + 1) =~= strings_view(system_sources@).take(i as int).push(system_sources@[i as int]@));
        }
        i = i + 1;
    }
    assert(strings_view(system_sources@).take(system_sources@.len() as int) =~= strings_view(
        system_sources@,
    ));
    if home_dir.unicode_len() == 0 {
        return r;
    }
    let ghost sys = r@;
    let mut j: usize = 0;
    while j < user_sources.len()
        invariant
            j <= user_sources@.len(),
            home_dir@.len() > 0,
            strings_view(sys) == strings_view(system_sources@),
            strings_view(r@) == strings_view(sys) + strings_view(user_sources@).take(
                j as int,
            ).map_values(|p: Seq<char>| path_join_spec(home_dir@, p)),
        decreases user_sources@.len() - j,
    {
        let p = path_join(home_dir, user_sources[j].as_str());
        let ghost before = r@;
        let ghost pv = p@;
        r.push(p);
        proof {
            lemma_strings_view_push(before, r@.last());
            assert(r@ == before.push(r@.last()));
            let f = |q: Seq<char>| path_join_spec(home_dir@, q);
            assert(strings_view(user_sources@).take(j + 1).map_values(f) =~= strings_view(user_sources@).take(j as int).map_values(f).push(pv));
        }
        assert(strings_view(r@) =~= strings_view(sys) + strings_view(user_sources@).take(
            j + 1,
        ).map_values(|p: Seq<char>| path_join_spec(home_dir@, p)));
        j = j + 1;
    }
    assert(strings_view(user_sources@).take(user_sources@.len() as int) =~= strings_view(
        user_sources@,
    ));
    r
}

/// The environment after sourcing the files with the given texts, in order.
pub open spec fn source_files_spec(m: Map<Seq<char>, Seq<char>>, files: Seq<Seq<char>>) -> Map<
    Seq<char>,
    Seq<char>,
>
    decreases files.len(),
{
    if files.len() == 0 {
        m
    } else {
        env_map::assign_all(source_files_spec(m, files.drop_last()), parse_env_spec(files.last()))
    }
}

/// Applies the assignments of the sourced files to `env`, in order; a later
/// assignment of a name wins. `sourced` holds the texts of the files that
/// `source_paths` lists, in that order (a file that cannot be read counts as
/// empty).
pub fn source_environment_files(env: &mut EnvMap, sourced: &[String])
    ensures
        final(env)@ == source_files_spec(old(env)@, strings_view(sourced@)),
{
    let ghost start = env@;
    let mut i: usize = 0;
    while i < sourced.len()
        invariant
            i <= sourced@.len(),
            env@ == source_files_spec(start, strings_view(sourced@).take(i as int)),
        decreases sourced@.len() - i,
    {
        let pairs = parse_env_content(sourced[i].as_str());
        env.insert_all(pairs.as_slice());
        assert(strings_view(sourced@).take(i + 1).drop_last() =~= strings_view(sourced@).take(
            i as int,
        ));
        i = i + 1;
    }
    assert(strings_view(sourced@).take(sourced@.len() as int) =~= strings_view(sourced@));
}

// ---------------------------------------------------------------------------
// The session environment
// ---------------------------------------------------------------------------

#[derive(Debug)]
pub struct EnvironmentOptions<'a> {
    pub pam_env: &'a EnvMap,
    pub username: &'a str,
    pub home_dir: &'a str,
    pub shell: &'a str,
    pub session_type: &'a str,
    pub display: Option<&'a str>,
    pub desktop_names: Option<&'a str>,
    pub system_sources: &'a [String],
    pub user_sources: &'a [String],
}

pub open spec fn default_path() -> Seq<char> {
    "/usr/local/sbin:/usr/local/bin:/usr/sbin:/usr/bin:/sbin:/bin"@
}

/// The POSIX and XDG variables that every session gets.
pub open spec fn base_env(
    username: Seq<char>,
    home_dir: Seq<char>,
    shell: Seq<char>,
    session_type: Seq<char>,
    desktop_names: Option<Seq<char>>,
) -> Map<Seq<char>, Seq<char>> {
    let m = Map::<Seq<char>, Seq<char>>::empty().insert("USER"@, username).insert(
        "LOGNAME"@,
        username,
    ).insert("HOME"@, home_dir).insert("SHELL"@, shell).insert("PATH"@, default_path()).insert(
        "XDG_SESSION_TYPE"@,
        session_type,
    ).insert("XDG_SESSION_CLASS"@, "user"@);
    match desktop_names {
        Some(d) => m.insert("XDG_CURRENT_DESKTOP"@, d),
        None => m,
    }
}

pub open spec fn opt_view(o: Option<&str>) -> Option<Seq<char>> {
    match o {
        Some(s) => Some(s@),
        None => None,
    }
}

/// The session environment: the base variables, overridden by the PAM
/// environment, overridden by the sourced files in order, and finally the
/// display when one is given.
pub open spec fn assembled_env(opts: EnvironmentOptions, sourced: Seq<Seq<char>>) -> Map<
    Seq<char>,
    Seq<char>,
> {
    let m1 = base_env(
        opts.username@,
        opts.home_dir@,
        opts.shell@,
        opts.session_type@,
        opt_view(opts.desktop_names),
    );
    let m2 = m1.union_prefer_right(opts.pam_env@);
    let m3 = source_files_spec(m2, sourced);
    match opts.display {
        Some(d) => m3.insert("DISPLAY"@, d@),
        None => m3,
    }
}

proof fn lemma_assign_all_union(m: Map<Seq<char>, Seq<char>>, ps: Seq<(Seq<char>, Seq<char>)>)
    ensures
        env_map::assign_all(m, ps) == m.union_prefer_right(env_map::assign_all(Map::empty(), ps)),
    decreases ps.len(),
{
    if ps.len() == 0 {
        assert(m.union_prefer_right(Map::empty()) =~= m);
    } else {
        lemma_assign_all_union(m, ps.drop_last());
        assert(env_map::assign_all(m, ps) =~= m.union_prefer_right(
            env_map::assign_all(Map::empty(), ps),
        ));
    }
}

fn insert_str(env: &mut EnvMap, key: &str, value: &str)
    ensures
        final(env)@ == old(env)@.insert(key@, value@),
{
    env.insert(text::str_to_string(key), text::str_to_string(value));
}

/// Builds the environment of a session. `sourced` holds the texts of the
/// files that `source_paths` lists for these options, in that order.
pub fn assemble_environment(opts: &EnvironmentOptions, sourced: &[String]) -> (r: EnvMap)
    ensures
        r@ == assembled_env(*opts, strings_view(sourced@)),
{
    let mut env = EnvMap::new();

    // 1. POSIX credential defaults
    insert_str(&mut env, "USER", opts.username);
    insert_str(&mut env, "LOGNAME", opts.username);
    insert_str(&mut env, "HOME", opts.home_dir);
    insert_str(&mut env, "SHELL", opts.shell);
    insert_str(&mut env, "PATH", "/usr/local/sbin:/usr/local/bin:/usr/sbin:/usr/bin:/sbin:/bin");

    // 2. Freedesktop / XDG standards
    insert_str(&mut env, "XDG_SESSION_TYPE", opts.session_type);
    insert_str(&mut env, "XDG_SESSION_CLASS", "user");
    match opts.desktop_names {
        Some(names) => insert_str(&mut env, "XDG_CURRENT_DESKTOP", names),
        None => {},
    }
    let ghost m1 = env@;
    assert(m1 =~= base_env(
        opts.username@,
        opts.home_dir@,
        opts.shell@,
        opts.session_type@,
        opt_view(opts.desktop_names),
    ));

    // 3. Merged PAM environment
    env.insert_all(opts.pam_env.entries());
    proof {
        lemma_assign_all_union(m1, opts.pam_env.pairs());
        opts.pam_env.lemma_entries_view();
    }

    // 4. Environment profile sourcing
    source_environment_files(&mut env, sourced);

    // 5. Optional display variable
    match opts.display {
        Some(disp) => insert_str(&mut env, "DISPLAY", disp),
        None => {},
    }
    env
}

// ---------------------------------------------------------------------------
// The command line
// ---------------------------------------------------------------------------

/// The body of a single-quoted shell word: each `'` becomes `'\''`.
pub open spec fn quote_body(s: Seq<char>) -> Seq<char>
    decreases s.len(),
{
    if s.len() == 0 {
        Seq::empty()
    } else {
        let piece = if s[0] == '\'' {
            seq!['\'', '\\', '\'', '\'']
        } else {
            seq![s[0]]
        };
        piece + quote_body(s.drop_first())
    }
}

/// `s` as one single-quoted shell word.
pub open spec fn shell_quote_spec(s: Seq<char>) -> Seq<char> {
    seq!['\''] + quote_body(s) + seq!['\'']
}

proof fn lemma_quote_body_push(s: Seq<char>, c: char)
    ensures
        quote_body(s.push(c)) == quote_body(s) + (if c == '\'' {
            seq!['\'', '\\', '\'', '\'']
        } else {
            seq![c]
        }),
    decreases s.len(),
{
    if s.len() == 0 {
        assert(s.push(c).drop_first() =~= Seq::<char>::empty());
        assert(quote_body(Seq::<char>::empty()) =~= Seq::<char>::empty());
    } else {
        assert(s.push(c).drop_first() =~= s.drop_first().push(c));
        lemma_quote_body_push(s.drop_first(), c);
    }
}

/// Quotes `s` for a POSIX shell: the result is read back as `s` itself.
pub fn shell_quote(s: &str) -> (r: String)
    ensures
        r@ == shell_quote_spec(s@),
{
    let x = text::chars_of(s);
    let mut r = String::new();
    r.push('\'');
    let mut i: usize = 0;
    while i < x.len()
        invariant
            i <= x@.len(),
            r@ == seq!['\''] + quote_body(x@.take(i as int)),
        decreases x@.len() - i,
    {
        let c = x[i];
        proof {
            assert(x@.take(i + 1) =~= x@.take(i as int).push(c));
            lemma_quote_body_push(x@.take(i as int), c);
        }
        if c == '\'' {
            r.push('\'');
            r.push('\\');
            r.push('\'');
            r.push('\'');
        } else {
            r.push(c);
        }
        i = i + 1;
    }
    r.push('\'');
    assert(x@.take(x@.len() as int) =~= x@);
    r
}

/// Words joined by single spaces.
pub open spec fn join_spaces(ws: Seq<Seq<char>>) -> Seq<char>
    decreases ws.len(),
{
    if ws.len() == 0 {
        Seq::empty()
    } else if ws.len() == 1 {
        ws[0]
    } else {
        join_spaces(ws.drop_last()) + seq![' '] + ws.last()
    }
}

/// The program and its arguments for a session command.
///
/// With no command, the user's login shell (`/bin/bash` when none is
/// known) is started with `-l`. When the login shell is bypassed, the
/// command runs as it is. Otherwise the shell runs it as
/// `-l -c "exec 'arg' 'arg' ..."`, each argument quoted.
pub open spec fn exec_command_spec(args: Seq<Seq<char>>, user_shell: Seq<char>, bypass: bool) -> (
    Seq<char>,
    Seq<Seq<char>>,
) {
    let shell = if user_shell.len() == 0 {
        "/bin/bash"@
    } else {
        user_shell
    };
    if args.len() == 0 {
        (shell, seq!["-l"@])
    } else if bypass {
        (args[0], args.drop_first())
    } else {
        (
            shell,
            seq![
                "-l"@,
                "-c"@,
                "exec "@ + join_spaces(args.map_values(|a: Seq<char>| shell_quote_spec(a))),
            ],
        )
    }
}

pub fn build_exec_command(exec_args: &[String], user_shell: &str, bypass_shell_login: bool) -> (r:
    (String, Vec<String>))
    ensures
        (r.0@, strings_view(r.1@)) == exec_command_spec(
            strings_view(exec_args@),
            user_shell@,
            bypass_shell_login,
        ),
{
    let shell = if user_shell.unicode_len() == 0 {
        text::str_to_string("/bin/bash")
    } else {
        text::str_to_string(user_shell)
    };
    if exec_args.len() == 0 {
        let mut v: Vec<String> = Vec::new();
        v.push(text::str_to_string("-l"));
        assert(strings_view(v@) =~= seq!["-l"@]);
        return (shell, v);
    }
    if bypass_shell_login {
        let mut v: Vec<String> = Vec::new();
        let mut i: usize = 1;
        while i < exec_args.len()
            invariant
                1 <= i <= exec_args@.len(),
                strings_view(v@) == strings_view(exec_args@).subrange(1, i as int),
            decreases exec_args@.len() - i,
        {
            let ghost before = v@;
            v.push(exec_args[i].clone());
            proof {
                lemma_strings_view_push(before, exec_args@[i as int]);
            }
            assert(strings_view(v@) =~= strings_view(exec_args@).subrange(1, i + 1));
            i = i + 1;
        }
        assert(strings_view(exec_args@).subrange(1, exec_args@.len() as int) =~= strings_view(
            exec_args@,
        ).drop_first());
        (exec_args[0].clone(), v)
    } else {
        let ghost quoted = strings_view(exec_args@).map_values(
            |a: Seq<char>| shell_quote_spec(a),
        );
        let mut full_cmd = text::str_to_string("exec ");
        let mut i: usize = 0;
        while i < exec_args.len()
            invariant
                i <= exec_args@.len(),
                exec_args@.len() > 0,
                quoted == strings_view(exec_args@).map_values(
                    |a: Seq<char>| shell_quote_spec(a),
                ),
                full_cmd@ == "exec "@ + join_spaces(quoted.take(i as int)),
            decreases exec_args@.len() - i,
        {
            let q = shell_quote(exec_args[i].as_str());
            let ghost before = quoted.take(i as int);
            assert(quoted.take(i + 1).drop_last() =~= before);
            assert(quoted.take(i + 1).last() == q@);
            if i > 0 {
                full_cmd.push(' ');
            } else {
                assert(before =~= Seq::<Seq<char>>::empty());
                assert(quoted.take(i + 1) =~= seq![q@]);
            }
            text::push_str(&mut full_cmd, q.as_str());
            i = i + 1;
        }
        assert(quoted.take(exec_args@.len() as int) =~= quoted);
        let mut v: Vec<String> = Vec::new();
        v.push(text::str_to_string("-l"));
        v.push(text::str_to_string("-c"));
        v.push(full_cmd);
        assert(strings_view(v@) =~= seq!["-l"@, "-c"@, "exec "@ + join_spaces(quoted)]);
        (shell, v)
    }
}

// ---------------------------------------------------------------------------
// Law: the shell reads a quoted word back as the text that was quoted.
// ---------------------------------------------------------------------------

/// How a POSIX shell reads the characters of a word, from position `i`:
/// outside quotes `\c` is `c`, `'` opens a single-quoted run in which every
/// character is literal until the next `'`, and other characters are
/// themselves.
pub open spec fn sh_read(t: Seq<char>, i: int, in_single: bool) -> Seq<char>
    decreases t.len() - i,
{
    if i < 0 || i >= t.len() {
        Seq::empty()
    } else if in_single {
        if t[i] == '\'' {
            sh_read(t, i + 1, false)
        } else {
            seq![t[i]] + sh_read(t, i + 1, true)
        }
    } else if t[i] == '\'' {
        sh_read(t, i + 1, true)
    } else if t[i] == '\\' && i + 1 < t.len() {
        seq![t[i + 1]] + sh_read(t, i + 2, false)
    } else {
        seq![t[i]] + sh_read(t, i + 1, false)
    }
}

/// Reading `quote_body(s)` inside single quotes, followed by anything that
/// starts by closing the quote, gives `s` and then what follows.
proof fn lemma_sh_read_body(t: Seq<char>, i: int, s: Seq<char>)
    requires
        0 <= i,
        i + quote_body(s).len() < t.len(),
        t.subrange(i, i + quote_body(s).len()) == quote_body(s),
        t[i + quote_body(s).len()] == '\'',
    ensures
        sh_read(t, i, true) == s + sh_read(t, i + quote_body(s).len() + 1, false),
    decreases s.len(),
{
    if s.len() == 0 {
        assert(quote_body(s) =~= Seq::<char>::empty());
        assert(s + sh_read(t, i + 1, false) =~= sh_read(t, i + 1, false));
    } else {
        let rest = s.drop_first();
        let qb = quote_body(s);
        let qr = quote_body(rest);
        if s[0] == '\'' {
            assert(qb == seq!['\'', '\\', '\'', '\''] + qr);
            assert(t[i] == qb[0]);
            assert(t[i + 1] == qb[1]);
            assert(t[i + 2] == qb[2]);
            assert(t[i + 3] == qb[3]);
            assert(t.subrange(i + 4, i + 4 + qr.len()) =~= qb.subrange(4, qb.len() as int));
            assert(qb.subrange(4, qb.len() as int) =~= qr);
            lemma_sh_read_body(t, i + 4, rest);
            assert(sh_read(t, i + 1, false) == seq!['\''] + sh_read(t, i + 3, false));
            assert(sh_read(t, i + 3, false) == sh_read(t, i + 4, true));
            assert(s =~= seq!['\''] + rest);
            assert(s + sh_read(t, i + qb.len() + 1, false) =~= seq!['\''] + (rest + sh_read(
                t,
                i + 4 + qr.len() + 1,
                false,
            )));
        } else {
            assert(qb == seq![s[0]] + qr);
            assert(t[i] == qb[0]);
            assert(t.subrange(i + 1, i + 1 + qr.len()) =~= qb.subrange(1, qb.len() as int));
            assert(qb.subrange(1, qb.len() as int) =~= qr);
            lemma_sh_read_body(t, i + 1, rest);
            assert(s =~= seq![s[0]] + rest);
            assert(s + sh_read(t, i + qb.len() + 1, false) =~= seq![s[0]] + (rest + sh_read(
                t,
                i + 1 + qr.len() + 1,
                false,
            )));
        }
    }
}

/// A POSIX shell reads the word that `shell_quote` produces as exactly the
/// text that was quoted.
pub proof fn law_shell_quote_reads_back(s: Seq<char>)
    ensures
        sh_read(shell_quote_spec(s), 0, false) == s,
{
    let t = shell_quote_spec(s);
    let qb = quote_body(s);
    let n: int = qb.len() as int;
    assert(t[0] == '\'');
    assert(t.subrange(1, 1 + n) =~= qb);
    assert(t[1 + n] == '\'');
    lemma_sh_read_body(t, 1, s);
    assert(sh_read(t, 2 + n, false) =~= Seq::<char>::empty());
    assert(s + Seq::<char>::empty() =~= s);
}

// ---------------------------------------------------------------------------
// Starting the session
// ---------------------------------------------------------------------------

/// How a session is started.
#[derive(Debug, Clone, Copy, PartialEq, Eq, Structural)]
pub enum LaunchMode {
    /// The session command runs directly on the current terminal.
    Direct,
    /// An X server is started on virtual terminal `vt`, then the session
    /// command with `DISPLAY` set to the server's display.
    Xorg { vt: i32 },
}

/// X sessions need a virtual terminal; other sessions run directly.
pub fn launch_mode(is_xorg: bool, vt: Option<i32>) -> (r: Result<LaunchMode, String>)
    ensures
        match r {
            Ok(m) => if is_xorg {
                vt is Some && m == (LaunchMode::Xorg { vt: vt.unwrap() })
            } else {
                m == LaunchMode::Direct
            },
            Err(e) => is_xorg && vt is None && e@ == "Xorg requires a VT number (none provided)"@,
        },
{
    if is_xorg {
        match vt {
            Some(v) => Ok(LaunchMode::Xorg { vt: v }),
            None => Err(text::str_to_string("Xorg requires a VT number (none provided)")),
        }
    } else {
        Ok(LaunchMode::Direct)
    }
}

/// The arguments of the X server: it writes its display number to
/// `display_fd` and runs on `vt`.
pub fn xorg_args(display_fd: i32, vt: i32) -> (r: Vec<String>)
    ensures
        r.deep_view() == seq![
            "-displayfd"@,
            text::i32_text_spec(display_fd),
            "vt"@ + text::i32_text_spec(vt),
        ],
{
    let mut v: Vec<String> = Vec::new();
    v.push(text::str_to_string("-displayfd"));
    v.push(text::i32_text(display_fd));
    let mut t = text::str_to_string("vt");
    let n = text::i32_text(vt);
    text::push_str(&mut t, n.as_str());
    v.push(t);
    assert(v.deep_view() =~= seq![
        "-displayfd"@,
        text::i32_text_spec(display_fd),
        "vt"@ + text::i32_text_spec(vt),
    ]);
    v
}

/// The `DISPLAY` value for what the X server wrote: `:` and the number,
/// without surrounding white space.
pub fn display_value(written: &str) -> (r: String)
    ensures
        r@ == seq![':'] + text::trim_seq(written@),
{
    let mut r = String::new();
    r.push(':');
    let t = text::trim_str(written);
    text::push_str(&mut r, t.as_str());
    r
}

/// Which process to stop after `exited` has ended: the session when the X
/// server ended, the X server when the session ended; `None` for any other
/// process, which is not waited for.
pub fn child_to_stop(exited: i32, xorg_pid: i32, session_pid: i32) -> (r: Option<i32>)
    ensures
        r == if exited == xorg_pid {
            Some(session_pid)
        } else if exited == session_pid {
            Some(xorg_pid)
        } else {
            None::<i32>
        },
{
    if exited == xorg_pid {
        Some(session_pid)
    } else if exited == session_pid {
        Some(xorg_pid)
    } else {
        None
    }
}

} // verus!
