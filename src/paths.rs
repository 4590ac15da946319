//! Expanding `~` and `$VAR` in configured paths, and choosing the screenshot
//! directory. The environment is handed in as plain values.
use vstd::prelude::*;
use crate::config::Config;
use crate::text::{chars_eq, chars_of, push_char, push_chars, string_of, trim, trim_chars};

verus! {

/// What path expansion reads from the environment.
#[derive(Debug)]
pub struct PathEnv {
    /// The home directory, when known.
    pub home: Option<String>,
    /// The user's pictures directory, when known.
    pub pictures: Option<String>,
    /// Environment variables as `(name, value)` pairs.
    pub vars: Vec<(String, String)>,
}

#[derive(Debug, Clone, Copy, PartialEq, Eq, Structural)]
pub enum PathError {
    /// The path starts with `~` but no home directory is known.
    NoHome,
}

pub open spec fn opt_view(s: Option<String>) -> Option<Seq<char>> {
    match s {
        Some(v) => Some(v@),
        None => None,
    }
}

/// `base` joined with `rest` as paths join: an absolute `rest` replaces
/// `base`, otherwise one `/` stands between them.
pub open spec fn join_spec(base: Seq<char>, rest: Seq<char>) -> Seq<char> {
    if rest.len() > 0 && rest[0] == '/' {
        rest
    } else if base.len() == 0 {
        rest
    } else if base.last() == '/' {
        base + rest
    } else {
        base + seq!['/'] + rest
    }
}

pub open spec fn is_name_char(c: char) -> bool {
    ('a' <= c && c <= 'z') || ('A' <= c && c <= 'Z') || ('0' <= c && c <= '9') || c == '_'
}

/// Where the variable name that starts at `k` ends.
pub open spec fn name_end(s: Seq<char>, k: int) -> int
    decreases s.len() - k,
{
    if 0 <= k < s.len() && is_name_char(s[k]) {
        name_end(s, k + 1)
    } else {
        k
    }
}

/// The value of the first variable called `name`.
pub open spec fn lookup(vars: Seq<(String, String)>, name: Seq<char>) -> Option<Seq<char>>
    decreases vars.len(),
{
    if vars.len() == 0 {
        None
    } else if vars[0].0@ == name {
        Some(vars[0].1@)
    } else {
        lookup(vars.drop_first(), name)
    }
}

/// What `$name` stands for.
pub open spec fn replacement(
    name: Seq<char>,
    home: Option<Seq<char>>,
    pictures: Option<Seq<char>>,
    vars: Seq<(String, String)>,
) -> Seq<char> {
    if name == "XDG_PICTURES_DIR"@ {
        match pictures {
            Some(p) => p,
            None => match home {
                Some(h) => join_spec(h, "Pictures"@),
                None => "Pictures"@,
            },
        }
    } else if name.len() > 0 {
        match lookup(vars, name) {
            Some(v) => v,
            None => seq!['$'] + name,
        }
    } else {
        seq!['$']
    }
}

/// `s[i..]` with every `$name` replaced.
pub open spec fn expand_vars(
    s: Seq<char>,
    i: int,
    home: Option<Seq<char>>,
    pictures: Option<Seq<char>>,
    vars: Seq<(String, String)>,
) -> Seq<char>
    decreases s.len() - i, 1int,
{
    if i < 0 || i >= s.len() {
        Seq::empty()
    } else if s[i] == '$' {
        let j = name_end(s, i + 1);
        if i < j <= s.len() {
            replacement(s.subrange(i + 1, j), home, pictures, vars) + expand_vars(
                s,
                j,
                home,
                pictures,
                vars,
            )
        } else {
            Seq::empty()
        }
    } else {
        seq![s[i]] + expand_vars(s, i + 1, home, pictures, vars)
    }
}

/// The home-relative step: `~` alone or `~/` at the start stands for the home directory.
pub open spec fn tilde_spec(t: Seq<char>, home: Option<Seq<char>>) -> Option<Seq<char>> {
    if t == "~"@ {
        home
    } else if t.len() >= 2 && t[0] == '~' && t[1] == '/' {
        match home {
            Some(h) => Some(join_spec(h, t.subrange(2, t.len() as int))),
            None => None,
        }
    } else {
        Some(t)
    }
}

/// The expanded form of `path`: trimmed, `.` when empty, then `~` and `$VAR` expanded.
pub open spec fn expand_spec(path: Seq<char>, env: PathEnv) -> Result<Seq<char>, PathError> {
    let t = trim(path);
    if t.len() == 0 {
        Ok("."@)
    } else {
        match tilde_spec(t, opt_view(env.home)) {
            None => Err(PathError::NoHome),
            Some(p) => Ok(expand_vars(p, 0, opt_view(env.home), opt_view(env.pictures), env.vars@)),
        }
    }
}

proof fn lemma_name_end_bounds(s: Seq<char>, k: int)
    requires
        0 <= k <= s.len(),
    ensures
        k <= name_end(s, k) <= s.len(),
        forall|m: int| k <= m < name_end(s, k) ==> is_name_char(#[trigger] s[m]),
        name_end(s, k) < s.len() ==> !is_name_char(s[name_end(s, k)]),
    decreases s.len() - k,
{
    if k < s.len() && is_name_char(s[k]) {
        lemma_name_end_bounds(s, k + 1);
    }
}

fn join_exec(base: &Vec<char>, rest: &Vec<char>) -> (r: Vec<char>)
    ensures
        r@ == join_spec(base@, rest@),
{
    if rest.len() > 0 && rest[0] == '/' {
        return slice_all(rest);
    }
    if base.len() == 0 {
        return slice_all(rest);
    }
    let mut r = slice_all(base);
    if base[base.len() - 1] != '/' {
        r.push('/');
    }
    let mut k: usize = 0;
    let ghost start = r@;
    while k < rest.len()
        invariant
            k <= rest.len(),
            r@ == start + rest@.subrange(0, k as int),
        decreases rest.len() - k,
    {
        r.push(rest[k]);
        k = k + 1;
        assert(r@ =~= start + rest@.subrange(0, k as int));
    }
    assert(rest@.subrange(0, rest@.len() as int) =~= rest@);
    assert(r@ =~= join_spec(base@, rest@));
    r
}

fn slice_all(v: &Vec<char>) -> (r: Vec<char>)
    ensures
        r@ == v@,
{
    crate::text::slice_chars(v, 0, v.len())
}

fn lookup_exec(vars: &Vec<(String, String)>, name: &Vec<char>) -> (r: Option<Vec<char>>)
    ensures
        match r {
            Some(v) => lookup(vars@, name@) == Some(v@),
            None => lookup(vars@, name@) is None,
        },
{
    let mut k: usize = 0;
    assert(vars@.subrange(0, vars@.len() as int) =~= vars@);
    while k < vars.len()
        invariant
            k <= vars.len(),
            lookup(vars@, name@) == lookup(vars@.subrange(k as int, vars@.len() as int), name@),
        decreases vars.len() - k,
    {
        let ghost rest = vars@.subrange(k as int, vars@.len() as int);
        assert(rest[0] == vars@[k as int]);
        assert(rest.drop_first() =~= vars@.subrange(k + 1, vars@.len() as int));
        let n = chars_of(vars[k].0.as_str());
        if chars_eq(&n, name) {
            return Some(chars_of(vars[k].1.as_str()));
        }
        k = k + 1;
    }
    None
}

fn replacement_exec(name: &Vec<char>, env: &PathEnv) -> (r: Vec<char>)
    ensures
        r@ == replacement(name@, opt_view(env.home), opt_view(env.pictures), env.vars@),
{
    let xdg = chars_of("XDG_PICTURES_DIR");
    if chars_eq(name, &xdg) {
        match &env.pictures {
            Some(p) => chars_of(p.as_str()),
            None => match &env.home {
                Some(h) => join_exec(&chars_of(h.as_str()), &chars_of("Pictures")),
                None => chars_of("Pictures"),
            },
        }
    } else if name.len() > 0 {
        match lookup_exec(&env.vars, name) {
            Some(v) => v,
            None => {
                let mut r: Vec<char> = vec!['$'];
                let mut k: usize = 0;
                while k < name.len()
                    invariant
                        k <= name.len(),
                        r@ == seq!['$'] + name@.subrange(0, k as int),
                    decreases name.len() - k,
                {
                    r.push(name[k]);
                    k = k + 1;
                    assert(r@ =~= seq!['$'] + name@.subrange(0, k as int));
                }
                assert(name@.subrange(0, name@.len() as int) =~= name@);
                r
            },
        }
    } else {
        let r: Vec<char> = vec!['$'];
        r
    }
}

fn expand_vars_exec(s: &Vec<char>, env: &PathEnv) -> (r: String)
    ensures
        r@ == expand_vars(s@, 0, opt_view(env.home), opt_view(env.pictures), env.vars@),
{
    let ghost (home, pictures, vars) = (opt_view(env.home), opt_view(env.pictures), env.vars@);
    let mut out = String::new();
    let mut i: usize = 0;
    while i < s.len()
        invariant
            i <= s.len(),
            home == opt_view(env.home),
            pictures == opt_view(env.pictures),
            vars == env.vars@,
            expand_vars(s@, 0, home, pictures, vars) == out@ + expand_vars(
                s@,
                i as int,
                home,
                pictures,
                vars,
            ),
        decreases s.len() - i,
    {
        if s[i] == '$' {
            let mut j: usize = i + 1;
            proof {
                lemma_name_end_bounds(s@, i + 1);
            }
            while j < s.len() && is_name_char_exec(s[j])
                invariant
                    i + 1 <= j <= s.len(),
                    name_end(s@, i + 1) == name_end(s@, j as int),
                decreases s.len() - j,
            {
                j = j + 1;
            }
            let name = crate::text::slice_chars(s, i + 1, j);
            let rep = replacement_exec(&name, env);
            let ghost before = out@;
            push_chars(&mut out, &rep);
            assert(out@ + expand_vars(s@, j as int, home, pictures, vars) =~= before
                + expand_vars(s@, i as int, home, pictures, vars));
            i = j;
        } else {
            let ghost before = out@;
            push_char(&mut out, s[i]);
            assert(out@ + expand_vars(s@, i + 1, home, pictures, vars) =~= before
                + expand_vars(s@, i as int, home, pictures, vars));
            i = i + 1;
        }
    }
    assert(out@ + expand_vars(s@, i as int, home, pictures, vars) =~= out@);
    out
}

fn is_name_char_exec(c: char) -> (r: bool)
    ensures
        r == is_name_char(c),
{
    ('a' <= c && c <= 'z') || ('A' <= c && c <= 'Z') || ('0' <= c && c <= '9') || c == '_'
}

/// Expands `path`: surrounding whitespace is dropped, an empty path is `.`,
/// a leading `~` is the home directory, and each `$NAME` is replaced by the
/// variable's value (`$XDG_PICTURES_DIR` by the pictures directory); an
/// unknown variable is kept as written.
pub fn expand_path(path: &str, env: &PathEnv) -> (r: Result<String, PathError>)
    ensures
        match r {
            Ok(p) => expand_spec(path@, *env) == Ok::<Seq<char>, PathError>(p@),
            Err(e) => expand_spec(path@, *env) == Err::<Seq<char>, PathError>(e),
        },
{
    let t = trim_chars(&chars_of(path));
    if t.len() == 0 {
        proof {
            reveal_strlit(".");
        }
        return Ok(String::from_str("."));
    }
    proof {
        reveal_strlit("~");
    }
    let tilde = t.len() == 1 && t[0] == '~';
    assert(tilde == (t@ == "~"@)) by {
        if t@.len() == 1 && t@[0] == '~' {
            assert(t@ =~= "~"@);
        }
    }
    let p: Vec<char> = if tilde {
        match &env.home {
            Some(h) => chars_of(h.as_str()),
            None => return Err(PathError::NoHome),
        }
    } else if t.len() >= 2 && t[0] == '~' && t[1] == '/' {
        match &env.home {
            Some(h) => join_exec(&chars_of(h.as_str()), &crate::text::slice_chars(&t, 2, t.len())),
            None => return Err(PathError::NoHome),
        }
    } else {
        t
    };
    Ok(expand_vars_exec(&p, env))
}

/// The directory screenshots go to: the command-line path as given, else the
/// expanded `HYPRSHOT_DIR` variable, else the expanded setting.
pub fn get_screenshots_dir(cli_path: Option<String>, config: &Config, env: &PathEnv) -> (r: Result<
    String,
    PathError,
>)
    ensures
        match cli_path {
            Some(p) => r == Ok::<String, PathError>(p),
            None => {
                let source = match lookup(env.vars@, "HYPRSHOT_DIR"@) {
                    Some(v) => v,
                    None => config.paths.screenshots_dir@,
                };
                match r {
                    Ok(p) => expand_spec(source, *env) == Ok::<Seq<char>, PathError>(p@),
                    Err(e) => expand_spec(source, *env) == Err::<Seq<char>, PathError>(e),
                }
            },
        },
{
    match cli_path {
        Some(p) => Ok(p),
        None => {
            let key = chars_of("HYPRSHOT_DIR");
            match lookup_exec(&env.vars, &key) {
                Some(v) => {
                    let s = string_of(&v);
                    expand_path(s.as_str(), env)
                },
                None => expand_path(config.paths.screenshots_dir.as_str(), env),
            }
        },
    }
}

} // verus!
