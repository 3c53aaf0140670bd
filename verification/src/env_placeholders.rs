use vstd::prelude::*;

verus! {

/// The characters of a string slice, in order.
pub fn chars_of(s: &str) -> (r: Vec<char>)
    ensures
        r@ == s@,
{
    broadcast use vstd::string::group_string_axioms;
    let mut r: Vec<char> = Vec::new();
    for c in it: s.chars()
        invariant
            it.seq() == s@,
            r@ == it.seq().take(it.index() as int),
    {
        r.push(c);
        proof {
            assert(r@ =~= it.seq().take(it.index() as int + 1));
        }
    }
    r
}

/// Why placeholders could not be expanded.
#[derive(Debug, PartialEq, Eq)]
pub enum EnvPlaceholderError {
    /// No environment variable has this name.
    MissingEnvVar(String),
}

/// A character that may start a variable name: a letter or `_`.
pub open spec fn is_name_start(c: char) -> bool {
    ('A' <= c && c <= 'Z') || ('a' <= c && c <= 'z') || c == '_'
}

/// A character that may continue a variable name: a letter, a digit or `_`.
pub open spec fn is_name_char(c: char) -> bool {
    is_name_start(c) || ('0' <= c && c <= '9')
}

/// The end of the run of name characters that starts at `i`.
pub open spec fn name_end(s: Seq<char>, i: int) -> int
    decreases s.len() - i,
{
    if 0 <= i < s.len() && is_name_char(s[i]) {
        name_end(s, i + 1)
    } else {
        i
    }
}

/// A placeholder found in the text.
pub struct Placeholder {
    /// Whether a backslash in front of the `$` asks for it to be kept as written.
    pub escaped: bool,
    /// Where the variable name starts.
    pub name_start: int,
    /// Where the variable name ends.
    pub name_end: int,
    /// Just past the closing brace.
    pub end: int,
}

/// The placeholder `${NAME}` that starts at `p`, if there is one: `$`, `{`, a
/// name (a letter or `_`, then letters, digits or `_`), and `}`.
pub open spec fn plain_placeholder_at(s: Seq<char>, p: int) -> Option<Placeholder> {
    if 0 <= p && p + 3 < s.len() && s[p] == '$' && s[p + 1] == '{' && is_name_start(s[p + 2])
        && name_end(s, p + 3) < s.len() && s[name_end(s, p + 3)] == '}' {
        Some(Placeholder { escaped: false, name_start: p + 2, name_end: name_end(s, p + 3), end: name_end(s, p + 3) + 1 })
    } else {
        None
    }
}

/// The placeholder that starts at `i`: `\${NAME}` (escaped) or `${NAME}`.
pub open spec fn placeholder_at(s: Seq<char>, i: int) -> Option<Placeholder> {
    if 0 <= i < s.len() && s[i] == '\\' && plain_placeholder_at(s, i + 1) is Some {
        Some(Placeholder { escaped: true, ..plain_placeholder_at(s, i + 1)->Some_0 })
    } else {
        plain_placeholder_at(s, i)
    }
}

/// The value of the first variable named `name` in `env`.
pub open spec fn env_lookup(env: Seq<(Seq<char>, Seq<char>)>, name: Seq<char>) -> Option<Seq<char>>
    decreases env.len(),
{
    if env.len() == 0 {
        None
    } else if env[0].0 == name {
        Some(env[0].1)
    } else {
        env_lookup(env.drop_first(), name)
    }
}

/// `x` in front of the text of `r`; errors are kept.
pub open spec fn prepend(x: Seq<char>, r: Result<Seq<char>, Seq<char>>) -> Result<Seq<char>, Seq<char>> {
    match r {
        Ok(t) => Ok(x + t),
        Err(n) => Err(n),
    }
}

/// The text from `i` on with its placeholders expanded, read left to right:
/// an escaped placeholder `\${NAME}` becomes `${NAME}`, a placeholder
/// `${NAME}` becomes the value of `NAME` in `env`, and the first name with no
/// value is the error.
pub open spec fn expand_from(s: Seq<char>, env: Seq<(Seq<char>, Seq<char>)>, i: int) -> Result<Seq<char>, Seq<char>>
    decreases s.len() - i,
{
    if i < 0 || i >= s.len() {
        Ok(Seq::empty())
    } else {
        match placeholder_at(s, i) {
            None => prepend(seq![s[i]], expand_from(s, env, i + 1)),
            Some(p) => {
                let name = s.subrange(p.name_start, p.name_end);
                proof {
                    lemma_placeholder_bounds(s, i);
                }
                if p.escaped {
                    prepend(seq!['$', '{'] + name + seq!['}'], expand_from(s, env, p.end))
                } else {
                    match env_lookup(env, name) {
                        Some(v) => prepend(v, expand_from(s, env, p.end)),
                        None => Err(name),
                    }
                }
            },
        }
    }
}

/// Putting `a` and then `b` in front is putting `a + b` in front.
pub proof fn lemma_prepend_prepend(a: Seq<char>, b: Seq<char>, r: Result<Seq<char>, Seq<char>>)
    ensures
        prepend(a, prepend(b, r)) == prepend(a + b, r),
{
    match r {
        Ok(t) => {
            assert(a + (b + t) =~= (a + b) + t);
        },
        Err(_) => {},
    }
}

/// The views of the variables of an environment.
pub open spec fn env_view(env: Seq<(String, String)>) -> Seq<(Seq<char>, Seq<char>)> {
    env.map_values(|e: (String, String)| (e.0@, e.1@))
}

/// A placeholder ends after it starts and within the text.
pub proof fn lemma_placeholder_bounds(s: Seq<char>, i: int)
    requires
        placeholder_at(s, i) is Some,
    ensures
        i + 4 <= placeholder_at(s, i)->Some_0.end <= s.len(),
        i < placeholder_at(s, i)->Some_0.name_start <= placeholder_at(s, i)->Some_0.name_end
            < placeholder_at(s, i)->Some_0.end,
{
    if s[i] == '\\' && plain_placeholder_at(s, i + 1) is Some {
        lemma_name_end_bounds(s, i + 4);
    } else {
        lemma_name_end_bounds(s, i + 3);
    }
}

/// The run of name characters from `i` ends at or after `i`.
pub proof fn lemma_name_end_bounds(s: Seq<char>, i: int)
    requires
        0 <= i,
    ensures
        i <= name_end(s, i),
        i <= s.len() ==> name_end(s, i) <= s.len(),
    decreases s.len() - i,
{
    if 0 <= i < s.len() && is_name_char(s[i]) {
        lemma_name_end_bounds(s, i + 1);
    }
}

/// Where the run of name characters that starts at `i` ends.
fn find_name_end(chars: &Vec<char>, i: usize) -> (r: usize)
    requires
        i <= chars.len(),
    ensures
        r == name_end(chars@, i as int),
{
    let mut j = i;
    while j < chars.len() && is_name_char_exec(chars[j])
        invariant
            i <= j <= chars.len(),
            name_end(chars@, i as int) == name_end(chars@, j as int),
        decreases chars.len() - j,
    {
        j = j + 1;
    }
    j
}

fn is_name_start_exec(c: char) -> (r: bool)
    ensures
        r == is_name_start(c),
{
    ('A' <= c && c <= 'Z') || ('a' <= c && c <= 'z') || c == '_'
}

fn is_name_char_exec(c: char) -> (r: bool)
    ensures
        r == is_name_char(c),
{
    is_name_start_exec(c) || ('0' <= c && c <= '9')
}

/// The placeholder `${NAME}` that starts at `p`, if there is one.
fn find_plain_placeholder(chars: &Vec<char>, p: usize) -> (r: Option<(usize, usize, usize)>)
    ensures
        match r {
            Some((ns, ne, e)) => plain_placeholder_at(chars@, p as int) == Some(
                Placeholder { escaped: false, name_start: ns as int, name_end: ne as int, end: e as int },
            ),
            None => plain_placeholder_at(chars@, p as int) is None,
        },
{
    let n = chars.len();
    if p < n && n - p > 3 && chars[p] == '$' && chars[p + 1] == '{' && is_name_start_exec(chars[p + 2]) {
        let ne = find_name_end(chars, p + 3);
        if ne < n && chars[ne] == '}' {
            return Some((p + 2, ne, ne + 1));
        }
    }
    None
}

/// The placeholder that starts at `i`, if there is one: whether it is
/// escaped, where its name starts and ends, and where it ends.
fn find_placeholder(chars: &Vec<char>, i: usize) -> (r: Option<(bool, usize, usize, usize)>)
    requires
        i < chars.len(),
    ensures
        match r {
            Some((esc, ns, ne, e)) => placeholder_at(chars@, i as int) == Some(
                Placeholder { escaped: esc, name_start: ns as int, name_end: ne as int, end: e as int },
            ),
            None => placeholder_at(chars@, i as int) is None,
        },
{
    if chars[i] == '\\' {
        match find_plain_placeholder(chars, i + 1) {
            Some((ns, ne, e)) => {
                return Some((true, ns, ne, e));
            },
            None => {},
        }
    }
    match find_plain_placeholder(chars, i) {
        Some((ns, ne, e)) => Some((false, ns, ne, e)),
        None => None,
    }
}

/// The value of the first variable named `name` in `env`.
fn lookup(env: &Vec<(String, String)>, name: &String) -> (r: Option<String>)
    ensures
        match r {
            Some(v) => env_lookup(env_view(env@), name@) == Some(v@),
            None => env_lookup(env_view(env@), name@) is None,
        },
{
    let ghost ev = env_view(env@);
    let mut k: usize = 0;
    assert(ev.subrange(0, ev.len() as int) =~= ev);
    while k < env.len()
        invariant
            k <= env.len(),
            ev == env_view(env@),
            env_lookup(ev, name@) == env_lookup(ev.subrange(k as int, ev.len() as int), name@),
        decreases env.len() - k,
    {
        let ghost rest = ev.subrange(k as int, ev.len() as int);
        assert(rest[0] == ev[k as int]);
        assert(rest.drop_first() =~= ev.subrange(k + 1, ev.len() as int));
        assert(ev[k as int] == (env@[k as int].0@, env@[k as int].1@));
        if env[k].0 == *name {
            return Some(env[k].1.clone());
        }
        k = k + 1;
    }
    assert(ev.subrange(k as int, ev.len() as int) =~= Seq::<(Seq<char>, Seq<char>)>::empty());
    None
}

/// Expands the placeholders of `input`, reading variables from `env`: each
/// `${NAME}` becomes the value of the first variable called `NAME`, each
/// `\${NAME}` becomes `${NAME}`, and everything else is copied. Fails with
/// the first name, left to right, that has no variable.
pub fn expand_env_placeholders(input: &str, env: &Vec<(String, String)>) -> (r: Result<String, EnvPlaceholderError>)
    ensures
        match r {
            Ok(t) => expand_from(input@, env_view(env@), 0) == Ok::<Seq<char>, Seq<char>>(t@),
            Err(EnvPlaceholderError::MissingEnvVar(n)) => expand_from(input@, env_view(env@), 0)
                == Err::<Seq<char>, Seq<char>>(n@),
        },
{
    let chars = chars_of(input);
    let ghost s = input@;
    let ghost ev = env_view(env@);
    let n = chars.len();
    let mut out = String::new();
    let mut last: usize = 0;
    let mut i: usize = 0;
    proof {
        assert(out@ + s.subrange(0, 0) =~= Seq::<char>::empty());
        assert(prepend(Seq::empty(), expand_from(s, ev, 0)) == expand_from(s, ev, 0));
    }
    while i < n
        invariant
            chars@ == s,
            s == input@,
            ev == env_view(env@),
            n == chars.len(),
            last <= i <= n,
            expand_from(s, ev, 0) == prepend(out@ + s.subrange(last as int, i as int), expand_from(s, ev, i as int)),
        decreases n - i,
    {
        match find_placeholder(&chars, i) {
            None => {
                proof {
                    let before = out@ + s.subrange(last as int, i as int);
                    lemma_prepend_prepend(before, seq![s[i as int]], expand_from(s, ev, i + 1));
                    assert(before + seq![s[i as int]] =~= out@ + s.subrange(last as int, i + 1));
                }
                i = i + 1;
            },
            Some((escaped, ns, ne, e)) => {
                proof {
                    lemma_placeholder_bounds(s, i as int);
                }
                let ghost before = out@ + s.subrange(last as int, i as int);
                let ghost rest = expand_from(s, ev, e as int);
                let lit = input.substring_char(last, i);
                out.append(lit);
                let name = input.substring_char(ns, ne).to_owned();
                if escaped {
                    out.append("${");
                    out.append(name.as_str());
                    out.append("}");
                    proof {
                        reveal_strlit("${");
                        reveal_strlit("}");
                        let x = seq!['$', '{'] + name@ + seq!['}'];
                        assert(out@ =~= before + x);
                        lemma_prepend_prepend(before, x, rest);
                        assert(out@ + s.subrange(e as int, e as int) =~= out@);
                    }
                } else {
                    match lookup(env, &name) {
                        Some(v) => {
                            out.append(v.as_str());
                            proof {
                                lemma_prepend_prepend(before, v@, rest);
                                assert(out@ + s.subrange(e as int, e as int) =~= out@);
                            }
                        },
                        None => {
                            return Err(EnvPlaceholderError::MissingEnvVar(name));
                        },
                    }
                }
                last = e;
                i = e;
            },
        }
    }
    let tail = input.substring_char(last, n);
    out.append(tail);
    proof {
        assert(expand_from(s, ev, n as int) == Ok::<Seq<char>, Seq<char>>(Seq::empty()));
        assert(out@ =~= out@ + Seq::<char>::empty());
    }
    Ok(out)
}

/// Text without any placeholder comes back unchanged, whatever the environment.
pub proof fn law_text_without_placeholders_is_unchanged(s: Seq<char>, env: Seq<(Seq<char>, Seq<char>)>)
    requires
        forall|i: int| 0 <= i < s.len() ==> placeholder_at(s, i) is None,
    ensures
        expand_from(s, env, 0) == Ok::<Seq<char>, Seq<char>>(s),
{
    lemma_unchanged_from(s, env, 0);
    assert(s.subrange(0, s.len() as int) =~= s);
}

proof fn lemma_unchanged_from(s: Seq<char>, env: Seq<(Seq<char>, Seq<char>)>, i: int)
    requires
        0 <= i <= s.len(),
        forall|j: int| 0 <= j < s.len() ==> placeholder_at(s, j) is None,
    ensures
        expand_from(s, env, i) == Ok::<Seq<char>, Seq<char>>(s.subrange(i, s.len() as int)),
    decreases s.len() - i,
{
    if i < s.len() {
        lemma_unchanged_from(s, env, i + 1);
        assert(seq![s[i]] + s.subrange(i + 1, s.len() as int) =~= s.subrange(i, s.len() as int));
    } else {
        assert(s.subrange(i, s.len() as int) =~= Seq::<char>::empty());
    }
}

/// An escaped placeholder `\${NAME}` is written back without its backslash,
/// whatever the environment holds, and expansion goes on after it.
pub proof fn law_escaped_placeholder_is_kept(s: Seq<char>, env: Seq<(Seq<char>, Seq<char>)>, i: int)
    requires
        0 <= i < s.len(),
        placeholder_at(s, i) matches Some(p) && p.escaped,
    ensures
        expand_from(s, env, i) == prepend(
            seq!['$', '{'] + s.subrange(placeholder_at(s, i)->Some_0.name_start, placeholder_at(s, i)->Some_0.name_end) + seq!['}'],
            expand_from(s, env, placeholder_at(s, i)->Some_0.end),
        ),
{
}

/// A variable name: a letter or `_`, then letters, digits or `_`.
pub open spec fn is_variable_name(name: Seq<char>) -> bool {
    &&& name.len() >= 1
    &&& ('A' <= name[0] <= 'Z') || ('a' <= name[0] <= 'z') || name[0] == '_'
    &&& forall|j: int| 1 <= j < name.len() ==>
        ('A' <= #[trigger] name[j] <= 'Z') || ('a' <= name[j] <= 'z') || ('0' <= name[j] <= '9') || name[j] == '_'
}

/// The name inside `${NAME}` runs up to the closing brace.
proof fn lemma_name_runs_to_brace(s: Seq<char>, name: Seq<char>, k: int)
    requires
        is_variable_name(name),
        s == seq!['$', '{'] + name + seq!['}'],
        3 <= k <= name.len() + 2,
    ensures
        name_end(s, k) == name.len() + 2,
    decreases name.len() + 2 - k,
{
    if k < name.len() + 2 {
        assert(s[k] == name[k - 2]);
        lemma_name_runs_to_brace(s, name, k + 1);
    } else {
        assert(s[k] == '}');
    }
}

/// A placeholder `${NAME}`, for every variable name (digits included after
/// the first character) that has a value in the environment, expands to that
/// value.
pub proof fn law_placeholder_expands_to_its_value(
    name: Seq<char>,
    value: Seq<char>,
    env: Seq<(Seq<char>, Seq<char>)>,
)
    requires
        is_variable_name(name),
        env_lookup(env, name) == Some(value),
    ensures
        expand_from(seq!['$', '{'] + name + seq!['}'], env, 0) == Ok::<Seq<char>, Seq<char>>(value),
{
    let s = seq!['$', '{'] + name + seq!['}'];
    assert(s.len() == (name.len() + 3) as int);
    assert(s[0] == '$' && s[1] == '{' && s[2] == name[0]);
    lemma_name_runs_to_brace(s, name, 3);
    assert(s[(name.len() + 2) as int] == '}');
    let p = plain_placeholder_at(s, 0);
    assert(p == Some(Placeholder { escaped: false, name_start: 2, name_end: (name.len() + 2) as int, end: (name.len() + 3) as int }));
    assert(placeholder_at(s, 0) == p);
    assert(s.subrange(2, (name.len() + 2) as int) =~= name);
    assert(expand_from(s, env, (name.len() + 3) as int) == Ok::<Seq<char>, Seq<char>>(Seq::empty()));
    assert(value + Seq::<char>::empty() =~= value);
}

/// A placeholder `${NAME}` whose variable has no value in the environment
/// fails, and the error names that variable.
pub proof fn law_missing_variable_is_the_error(name: Seq<char>, env: Seq<(Seq<char>, Seq<char>)>)
    requires
        is_variable_name(name),
        env_lookup(env, name) is None,
    ensures
        expand_from(seq!['$', '{'] + name + seq!['}'], env, 0) == Err::<Seq<char>, Seq<char>>(name),
{
    let s = seq!['$', '{'] + name + seq!['}'];
    assert(s.len() == name.len() + 3);
    assert(s[0] == '$' && s[1] == '{' && s[2] == name[0]);
    lemma_name_runs_to_brace(s, name, 3);
    assert(s[(name.len() + 2) as int] == '}');
    assert(placeholder_at(s, 0) == Some(
        Placeholder { escaped: false, name_start: 2, name_end: (name.len() + 2) as int, end: (name.len() + 3) as int },
    ));
    assert(s.subrange(2, (name.len() + 2) as int) =~= name);
}

} // verus!
