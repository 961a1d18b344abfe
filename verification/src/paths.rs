//! Path expansion for user-configured paths, and the few path operations
//! the library needs.
//!
//! Expands a leading `~` (or `~/…`) to `$HOME`, and `$VAR` / `${VAR}` anywhere
//! in the string to the environment-variable value. Unknown variables are left
//! intact so the resulting path surfaces obviously in error messages.
//!
//! Paths are carried as `String`s. The environment is passed in as a snapshot
//! of its variables, so that expansion is a function of its inputs.

use vstd::prelude::*;

use crate::text::{
    chars_of, concat2, concat3, owned, push_char, push_str, str_eq, string_from_chars,
    string_from_range,
};

verus! {

// ---------------------------------------------------------------------------
// Joining and splitting paths
// ---------------------------------------------------------------------------

/// `PathBuf::join` on Unix: an absolute `b` replaces `a`; otherwise `b` is
/// appended, with a `/` between them unless `a` is empty or already ends in one.
pub open spec fn join_spec(a: Seq<char>, b: Seq<char>) -> Seq<char> {
    if b.len() > 0 && b[0] == '/' {
        b
    } else if a.len() == 0 || a.last() == '/' {
        a + b
    } else {
        a + seq!['/'] + b
    }
}

/// `a.join(b)` for Unix paths.
pub fn path_join(a: &str, b: &str) -> (r: String)
    ensures
        r@ == join_spec(a@, b@),
{
    let bv = chars_of(b);
    if bv.len() > 0 && bv[0] == '/' {
        return owned(b);
    }
    let av = chars_of(a);
    if av.len() == 0 || av[av.len() - 1] == '/' {
        concat2(a, b)
    } else {
        let r = concat3(a, "/", b);
        proof {
            reveal_strlit("/");
        }
        r
    }
}

/// The value `Path::file_name` gives for a path, as text: its last
/// component when that is a normal one, and nothing when the path ends in
/// `..`, is the root or `.`, or is empty.
pub open spec fn std_file_name(p: Seq<char>) -> Option<Seq<char>> {
    let pieces = normal_pieces(split_slash(p));
    if pieces.len() > 0 && pieces.last() != seq!['.', '.'] {
        Some(pieces.last())
    } else {
        None
    }
}

/// The value `Path::parent` gives for a path, as text.
pub uninterp spec fn std_parent(p: Seq<char>) -> Option<Seq<char>>;

/// The value `Path::with_file_name` gives for a path and a new name, as text.
pub uninterp spec fn std_with_file_name(p: Seq<char>, name: Seq<char>) -> Seq<char>;

/// The value `Path::with_extension` gives for a path and a new extension, as text.
pub uninterp spec fn std_with_extension(p: Seq<char>, ext: Seq<char>) -> Seq<char>;

/// Calls `std::path::Path::file_name` on `p`: the last of the path's
/// components when it is a normal one (`Path::components` skips empty
/// pieces and inner `.`), as `std_file_name` states. The name of a path made
/// from text is itself text, so `to_str` always succeeds.
#[verifier::external_body]
pub(crate) fn file_name(p: &str) -> (r: Option<String>)
    ensures
        r matches Some(x) ==> std_file_name(p@) == Some(x@),
        r is None ==> std_file_name(p@) is None,
{
    std::path::Path::new(p).file_name().and_then(|s| s.to_str()).map(|s| s.to_owned())
}

/// Calls `std::path::Path::parent` on `p`. The contract ties the result to
/// `std_parent(p)` and says nothing else of it.
#[verifier::external_body]
pub(crate) fn parent(p: &str) -> (r: Option<String>)
    ensures
        r matches Some(x) ==> std_parent(p@) == Some(x@),
        r is None ==> std_parent(p@) is None,
{
    std::path::Path::new(p).parent().and_then(|s| s.to_str()).map(|s| s.to_owned())
}

/// Calls `std::path::Path::with_file_name`. The contract ties the result to
/// `std_with_file_name(p, name)` and says nothing else of it.
#[verifier::external_body]
pub(crate) fn with_file_name(p: &str, name: &str) -> (r: String)
    ensures
        r@ == std_with_file_name(p@, name@),
{
    std::path::Path::new(p).with_file_name(name).to_string_lossy().into_owned()
}

/// Calls `std::path::Path::with_extension`. The contract ties the result to
/// `std_with_extension(p, ext)` and says nothing else of it. The call panics
/// when the extension holds a path separator, so such an extension is not
/// admitted.
#[verifier::external_body]
pub(crate) fn with_extension(p: &str, ext: &str) -> (r: String)
    requires
        !ext@.contains('/'),
    ensures
        r@ == std_with_extension(p@, ext@),
{
    std::path::Path::new(p).with_extension(ext).to_string_lossy().into_owned()
}

// ---------------------------------------------------------------------------
// Path components
// ---------------------------------------------------------------------------

/// The `/`-separated pieces of `p`, as `str::split('/')` gives them: one
/// more piece than `p` has separators.
pub open spec fn split_slash(p: Seq<char>) -> Seq<Seq<char>>
    decreases p.len(),
{
    if p.len() == 0 {
        seq![Seq::<char>::empty()]
    } else {
        let s = split_slash(p.drop_last());
        if p.last() == '/' {
            s.push(Seq::empty())
        } else {
            s.update(s.len() - 1, s.last().push(p.last()))
        }
    }
}

/// Whether a piece is a normal component: neither empty (a doubled or
/// trailing separator) nor `.`.
pub open spec fn is_normal_piece(x: Seq<char>) -> bool {
    x.len() > 0 && x != seq!['.']
}

/// The normal components among `pieces`, in order.
pub open spec fn normal_pieces(pieces: Seq<Seq<char>>) -> Seq<Seq<char>>
    decreases pieces.len(),
{
    if pieces.len() == 0 {
        Seq::empty()
    } else {
        let prev = normal_pieces(pieces.drop_last());
        if is_normal_piece(pieces.last()) {
            prev.push(pieces.last())
        } else {
            prev
        }
    }
}

/// What `Path::components` gives for a Unix path, as whether it starts
/// with the root, whether it starts with a `.` component, and its normal
/// components. Two paths are equal as `Path`s exactly when these are equal:
/// doubled separators, a trailing separator and inner `.` components make
/// no difference.
pub open spec fn path_components(p: Seq<char>) -> (bool, bool, Seq<Seq<char>>) {
    (p.len() > 0 && p[0] == '/', split_slash(p)[0] == seq!['.'], normal_pieces(split_slash(p)))
}

proof fn lemma_split_slash_nonempty(p: Seq<char>)
    ensures
        split_slash(p).len() >= 1,
    decreases p.len(),
{
    if p.len() > 0 {
        lemma_split_slash_nonempty(p.drop_last());
    }
}

/// The components of `p`, as `path_components` describes them.
fn path_key(p: &str) -> (r: (bool, bool, Vec<String>))
    ensures
        r.0 == path_components(p@).0,
        r.1 == path_components(p@).1,
        r.2@.map_values(|x: String| x@) == path_components(p@).2,
{
    let cs = chars_of(p);
    let n = cs.len();
    let mut cur: Vec<char> = Vec::new();
    let mut normals: Vec<String> = Vec::new();
    let mut first_done = false;
    let mut first_dot = false;
    proof {
        assert(cs@.take(0) =~= Seq::<char>::empty());
    }
    for i in 0..n
        invariant
            n == cs@.len(),
            cs@ == p@,
            split_slash(cs@.take(i as int)).len() >= 1,
            cur@ == split_slash(cs@.take(i as int)).last(),
            normals@.map_values(|x: String| x@) == normal_pieces(
                split_slash(cs@.take(i as int)).drop_last(),
            ),
            first_done ==> split_slash(cs@.take(i as int)).len() > 1,
            first_done ==> first_dot == (split_slash(cs@.take(i as int))[0] == seq!['.']),
            !first_done ==> split_slash(cs@.take(i as int)).len() == 1,
    {
        let ghost t = cs@.take(i as int);
        let ghost s = split_slash(t);
        proof {
            assert(cs@.take(i + 1).drop_last() =~= t);
            assert(cs@.take(i + 1).last() == cs@[i as int]);
        }
        let c = cs[i];
        if c == '/' {
            if !first_done {
                first_dot = cur.len() == 1 && cur[0] == '.';
                proof {
                    assert(first_dot == (cur@ =~= seq!['.']));
                }
                first_done = true;
            }
            let piece = string_from_chars(&cur);
            if cur.len() > 0 && !(cur.len() == 1 && cur[0] == '.') {
                let ghost before = normals@;
                normals.push(piece);
                proof {
                    assert(is_normal_piece(s.last())) by {
                        if s.last() == seq!['.'] {
                            assert(cur@.len() == 1 && cur@[0] == '.');
                        }
                    }
                    assert(normals@.map_values(|x: String| x@) =~= before.map_values(
                        |x: String| x@,
                    ).push(s.last()));
                }
            } else {
                proof {
                    if cur@.len() != 0 {
                        assert(cur@ =~= seq!['.']);
                    }
                    assert(!is_normal_piece(s.last()));
                }
            }
            cur = Vec::new();
            proof {
                let s2 = split_slash(cs@.take(i + 1));
                assert(s2 == s.push(Seq::<char>::empty()));
                assert(s2.drop_last() =~= s);
                assert(s == s.drop_last().push(s.last()));
                assert(cur@ =~= s2.last());
            }
        } else {
            cur.push(c);
            proof {
                let s2 = split_slash(cs@.take(i + 1));
                assert(s2 == s.update(s.len() - 1, s.last().push(c)));
                assert(s2.drop_last() =~= s.drop_last());
                assert(cur@ =~= s2.last());
                if s.len() > 1 {
                    assert(s2[0] == s[0]);
                }
            }
        }
    }
    proof {
        assert(cs@.take(n as int) =~= p@);
    }
    let ghost s = split_slash(p@);
    if !first_done {
        first_dot = cur.len() == 1 && cur[0] == '.';
        proof {
            assert(first_dot == (cur@ =~= seq!['.']));
            assert(s[0] == s.last());
        }
    }
    if cur.len() > 0 && !(cur.len() == 1 && cur[0] == '.') {
        let ghost before = normals@;
        normals.push(string_from_chars(&cur));
        proof {
            assert(is_normal_piece(s.last())) by {
                if s.last() == seq!['.'] {
                    assert(cur@.len() == 1 && cur@[0] == '.');
                }
            }
            assert(s == s.drop_last().push(s.last()));
            assert(normals@.map_values(|x: String| x@) =~= before.map_values(|x: String| x@).push(
                s.last(),
            ));
        }
    } else {
        proof {
            if cur@.len() != 0 {
                assert(cur@ =~= seq!['.']);
            }
            assert(!is_normal_piece(s.last()));
            assert(s == s.drop_last().push(s.last()));
        }
    }
    let rooted = n > 0 && cs[0] == '/';
    (rooted, first_dot, normals)
}

/// Whether `a` and `b` name the same path, as `Path`'s `==` compares them:
/// component by component.
pub fn same_path(a: &str, b: &str) -> (r: bool)
    ensures
        r == (path_components(a@) == path_components(b@)),
{
    let ka = path_key(a);
    let kb = path_key(b);
    let ghost va = ka.2@.map_values(|x: String| x@);
    let ghost vb = kb.2@.map_values(|x: String| x@);
    if ka.0 != kb.0 || ka.1 != kb.1 || ka.2.len() != kb.2.len() {
        proof {
            assert(va.len() == ka.2@.len());
            assert(vb.len() == kb.2@.len());
            assert(path_components(a@).2 == va);
            assert(path_components(b@).2 == vb);
            if ka.2.len() != kb.2.len() {
                assert(va.len() != vb.len());
            }
        }
        return false;
    }
    let n = ka.2.len();
    for i in 0..n
        invariant
            n == ka.2@.len(),
            n == kb.2@.len(),
            va == ka.2@.map_values(|x: String| x@),
            vb == kb.2@.map_values(|x: String| x@),
            path_components(a@) == (ka.0, ka.1, va),
            path_components(b@) == (kb.0, kb.1, vb),
            ka.0 == kb.0,
            ka.1 == kb.1,
            forall|k: int| 0 <= k < i ==> va[k] == vb[k],
    {
        if !str_eq(&ka.2[i], &kb.2[i]) {
            assert(va[i as int] == ka.2@[i as int]@);
            assert(vb[i as int] == kb.2@[i as int]@);
            assert(va != vb);
            return false;
        }
    }
    assert(va =~= vb);
    true
}

// ---------------------------------------------------------------------------
// The environment
// ---------------------------------------------------------------------------

/// A snapshot of the process environment: `(name, value)` pairs.
pub struct Env {
    pub vars: Vec<(String, String)>,
}

impl Env {
    /// The variables as character sequences.
    pub open spec fn view_vars(&self) -> Seq<(Seq<char>, Seq<char>)> {
        self.vars@.map_values(|p: (String, String)| (p.0@, p.1@))
    }

    /// An environment with no variables.
    pub fn empty() -> (e: Env)
        ensures
            e.view_vars() == Seq::<(Seq<char>, Seq<char>)>::empty(),
    {
        let e = Env { vars: Vec::new() };
        assert(e.view_vars() =~= Seq::<(Seq<char>, Seq<char>)>::empty());
        e
    }
}

/// `std::env::var(name)`: the value of the first variable called `name`.
pub open spec fn env_lookup(vars: Seq<(Seq<char>, Seq<char>)>, name: Seq<char>) -> Option<
    Seq<char>,
>
    decreases vars.len(),
{
    if vars.len() == 0 {
        None
    } else if vars[0].0 == name {
        Some(vars[0].1)
    } else {
        env_lookup(vars.drop_first(), name)
    }
}

/// The value of the variable called `name`, if set.
pub fn env_var(env: &Env, name: &str) -> (r: Option<String>)
    ensures
        r matches Some(v) ==> env_lookup(env.view_vars(), name@) == Some(v@),
        r is None ==> env_lookup(env.view_vars(), name@) is None,
{
    let n = env.vars.len();
    let ghost vars = env.view_vars();
    assert(vars.skip(0) =~= vars);
    for i in 0..n
        invariant
            n == env.vars@.len(),
            vars == env.view_vars(),
            env_lookup(vars, name@) == env_lookup(vars.skip(i as int), name@),
    {
        assert(vars.skip(i as int).drop_first() =~= vars.skip(i + 1));
        assert(vars.skip(i as int)[0] == vars[i as int]);
        if str_eq(&env.vars[i].0, name) {
            return Some(owned(&env.vars[i].1));
        }
    }
    assert(vars.skip(n as int).len() == 0);
    None
}

/// `$HOME`, when set and not empty.
pub open spec fn home_spec(vars: Seq<(Seq<char>, Seq<char>)>) -> Option<Seq<char>> {
    match env_lookup(vars, "HOME"@) {
        Some(h) => if h.len() > 0 {
            Some(h)
        } else {
            None
        },
        None => None,
    }
}

fn home(env: &Env) -> (r: Option<String>)
    ensures
        r matches Some(h) ==> home_spec(env.view_vars()) == Some(h@),
        r is None ==> home_spec(env.view_vars()) is None,
{
    match env_var(env, "HOME") {
        Some(h) => {
            if h.as_str().is_empty() {
                None
            } else {
                Some(h)
            }
        },
        None => None,
    }
}

// ---------------------------------------------------------------------------
// Tilde expansion
// ---------------------------------------------------------------------------

/// A leading `~` alone, or `~/…`, becomes `$HOME`; everything else is kept.
pub open spec fn expand_tilde_spec(s: Seq<char>, vars: Seq<(Seq<char>, Seq<char>)>) -> Seq<
    char,
> {
    if s == seq!['~'] {
        match home_spec(vars) {
            Some(h) => h,
            None => s,
        }
    } else if s.len() >= 2 && s[0] == '~' && s[1] == '/' && home_spec(vars) is Some {
        home_spec(vars).unwrap() + seq!['/'] + s.skip(2)
    } else {
        s
    }
}

fn expand_tilde(s: &str, env: &Env) -> (r: String)
    ensures
        r@ == expand_tilde_spec(s@, env.view_vars()),
{
    let v = chars_of(s);
    if v.len() == 1 && v[0] == '~' {
        assert(s@ =~= seq!['~']);
        return match home(env) {
            Some(h) => h,
            None => owned(s),
        };
    }
    assert(s@ != seq!['~'] ==> !(v@.len() == 1 && v@[0] == '~'));
    if v.len() >= 2 && v[0] == '~' && v[1] == '/' {
        if let Some(h) = home(env) {
            let mut r = h;
            push_char(&mut r, '/');
            let rest = string_from_range(&v, 2, v.len());
            push_str(&mut r, &rest);
            assert(v@.subrange(2, v@.len() as int) =~= s@.skip(2));
            return r;
        }
    }
    owned(s)
}

// ---------------------------------------------------------------------------
// Variable expansion
// ---------------------------------------------------------------------------

/// A byte that may start a variable name (`is_ascii_alphabetic` or `_`).
pub open spec fn is_name_start_spec(c: char) -> bool {
    ('a' <= c && c <= 'z') || ('A' <= c && c <= 'Z') || c == '_'
}

/// A byte that may continue a variable name (`is_ascii_alphanumeric` or `_`).
pub open spec fn is_name_cont_spec(c: char) -> bool {
    is_name_start_spec(c) || ('0' <= c && c <= '9')
}

/// Whether `c` may start a variable name.
pub fn is_name_start(c: char) -> (r: bool)
    ensures
        r == is_name_start_spec(c),
{
    ('a' <= c && c <= 'z') || ('A' <= c && c <= 'Z') || c == '_'
}

/// Whether `c` may continue a variable name.
pub fn is_name_cont(c: char) -> (r: bool)
    ensures
        r == is_name_cont_spec(c),
{
    is_name_start(c) || ('0' <= c && c <= '9')
}

/// Number of leading characters of `s` that may continue a name.
pub open spec fn name_run_len(s: Seq<char>) -> nat
    decreases s.len(),
{
    if s.len() > 0 && is_name_cont_spec(s[0]) {
        1 + name_run_len(s.drop_first())
    } else {
        0
    }
}

/// Index of the first `}` in `s`, if any.
pub open spec fn close_brace(s: Seq<char>) -> Option<nat>
    decreases s.len(),
{
    if s.len() == 0 {
        None
    } else if s[0] == '}' {
        Some(0)
    } else {
        match close_brace(s.drop_first()) {
            Some(k) => Some(k + 1),
            None => None,
        }
    }
}

/// `$NAME` and `${NAME}` replaced by their values; unknown names, any `$`
/// that does not start a reference, and all other text are kept as written.
pub open spec fn expand_env_spec(s: Seq<char>, vars: Seq<(Seq<char>, Seq<char>)>) -> Seq<char>
    decreases s.len(),
{
    if s.len() == 0 {
        Seq::empty()
    } else if s[0] == '$' && s.len() >= 2 && s[1] == '{' && close_brace(s.skip(2)) is Some {
        let end = close_brace(s.skip(2)).unwrap() as int;
        proof {
            lemma_close_brace(s.skip(2));
        }
        let name = s.subrange(2, 2 + end);
        let replaced = match env_lookup(vars, name) {
            Some(v) => v,
            None => s.subrange(0, 2 + end + 1),
        };
        replaced + expand_env_spec(s.skip(2 + end + 1), vars)
    } else if s[0] == '$' && s.len() >= 2 && s[1] != '{' && is_name_start_spec(s[1]) {
        let j = 1 + name_run_len(s.skip(1)) as int;
        proof {
            lemma_name_run(s.skip(1));
        }
        let name = s.subrange(1, j);
        let replaced = match env_lookup(vars, name) {
            Some(v) => v,
            None => s.subrange(0, j),
        };
        replaced + expand_env_spec(s.skip(j), vars)
    } else {
        seq![s[0]] + expand_env_spec(s.drop_first(), vars)
    }
}

pub proof fn lemma_close_brace(s: Seq<char>)
    ensures
        close_brace(s) matches Some(k) ==> k < s.len() && s[k as int] == '}' && forall|i: int|
            0 <= i < k ==> s[i] != '}',
        close_brace(s) is None ==> forall|i: int| 0 <= i < s.len() ==> s[i] != '}',
    decreases s.len(),
{
    if s.len() > 0 && s[0] != '}' {
        lemma_close_brace(s.drop_first());
        assert forall|i: int| 1 <= i < s.len() implies s[i] == s.drop_first()[i - 1] by {}
    }
}

pub proof fn lemma_name_run(s: Seq<char>)
    ensures
        name_run_len(s) <= s.len(),
        forall|i: int| 0 <= i < name_run_len(s) ==> is_name_cont_spec(#[trigger] s[i]),
        name_run_len(s) < s.len() ==> !is_name_cont_spec(s[name_run_len(s) as int]),
    decreases s.len(),
{
    if s.len() > 0 && is_name_cont_spec(s[0]) {
        lemma_name_run(s.drop_first());
        assert forall|i: int| 0 <= i < name_run_len(s) implies is_name_cont_spec(
            #[trigger] s[i],
        ) by {
            if i > 0 {
                assert(s[i] == s.drop_first()[i - 1]);
            }
        }
    }
}

proof fn lemma_name_run_exact(s: Seq<char>, k: int)
    requires
        0 <= k <= s.len(),
        forall|i: int| 0 <= i < k ==> is_name_cont_spec(#[trigger] s[i]),
        k < s.len() ==> !is_name_cont_spec(s[k]),
    ensures
        name_run_len(s) == k,
    decreases s.len(),
{
    if k > 0 {
        assert(is_name_cont_spec(s[0]));
        assert forall|i: int| 0 <= i < k - 1 implies is_name_cont_spec(
            #[trigger] s.drop_first()[i],
        ) by {
            assert(s.drop_first()[i] == s[i + 1]);
        }
        lemma_name_run_exact(s.drop_first(), k - 1);
    }
}

proof fn lemma_close_brace_exact(s: Seq<char>, k: int)
    requires
        0 <= k < s.len(),
        s[k] == '}',
        forall|i: int| 0 <= i < k ==> s[i] != '}',
    ensures
        close_brace(s) == Some(k as nat),
    decreases s.len(),
{
    if k > 0 {
        assert forall|i: int| 0 <= i < k - 1 implies s.drop_first()[i] != '}' by {
            assert(s.drop_first()[i] == s[i + 1]);
        }
        lemma_close_brace_exact(s.drop_first(), k - 1);
    }
}

proof fn lemma_no_close_brace(s: Seq<char>)
    requires
        forall|i: int| 0 <= i < s.len() ==> s[i] != '}',
    ensures
        close_brace(s) is None,
    decreases s.len(),
{
    if s.len() > 0 {
        assert forall|i: int| 0 <= i < s.len() - 1 implies s.drop_first()[i] != '}' by {
            assert(s.drop_first()[i] == s[i + 1]);
        }
        lemma_no_close_brace(s.drop_first());
    }
}

/// `${NAME}` at `v[i]`: the replacement text and the index after the brace,
/// or `None` when no `}` follows.
fn expand_braced_at(v: &Vec<char>, i: usize, env: &Env) -> (r: Option<(String, usize)>)
    requires
        i + 1 < v@.len(),
        v@[i as int] == '$',
        v@[i + 1] == '{',
    ensures
        ({
            let t = v@.skip(i as int);
            match r {
                Some((piece, next)) => i < next <= v@.len() && piece@ + expand_env_spec(
                    v@.skip(next as int),
                    env.view_vars(),
                ) == expand_env_spec(t, env.view_vars()),
                None => close_brace(t.skip(2)) is None,
            }
        }),
{
    let n = v.len();
    let ghost t = v@.skip(i as int);
    let ghost vars = env.view_vars();
    assert(t[0] == '$' && t[1] == '{');
    let mut k = i + 2;
    while k < n && v[k] != '}'
        invariant
            i + 2 <= k <= n,
            n == v@.len(),
            forall|q: int| i + 2 <= q < k ==> v@[q] != '}',
        decreases n - k,
    {
        k = k + 1;
    }
    let ghost u = t.skip(2);
    assert(u =~= v@.skip(i + 2));
    if k < n {
        let ghost e = k - (i + 2);
        proof {
            assert forall|q: int| 0 <= q < e implies u[q] != '}' by {
                assert(u[q] == v@[q + i + 2]);
            }
            lemma_close_brace_exact(u, e);
        }
        let name = string_from_range(v, i + 2, k);
        assert(name@ =~= t.subrange(2, 2 + e));
        let piece = match env_var(env, &name) {
            Some(val) => val,
            None => {
                let lit = string_from_range(v, i, k + 1);
                assert(lit@ =~= t.subrange(0, 2 + e + 1));
                lit
            },
        };
        assert(t.skip(2 + e + 1) =~= v@.skip(k + 1));
        Some((piece, k + 1))
    } else {
        proof {
            assert forall|q: int| 0 <= q < u.len() implies u[q] != '}' by {
                assert(u[q] == v@[q + i + 2]);
            }
            lemma_no_close_brace(u);
        }
        None
    }
}

/// `$NAME` at `v[i]`: the replacement text and the index after the name.
fn expand_named_at(v: &Vec<char>, i: usize, env: &Env) -> (r: (String, usize))
    requires
        i + 1 < v@.len(),
        v@[i as int] == '$',
        v@[i + 1] != '{',
        is_name_start_spec(v@[i + 1]),
    ensures
        i < r.1 <= v@.len(),
        r.0@ + expand_env_spec(v@.skip(r.1 as int), env.view_vars()) == expand_env_spec(
            v@.skip(i as int),
            env.view_vars(),
        ),
{
    let n = v.len();
    let ghost t = v@.skip(i as int);
    assert(t[0] == '$' && t[1] == v@[i + 1]);
    let mut j = i + 1;
    while j < n && is_name_cont(v[j])
        invariant
            i + 1 <= j <= n,
            n == v@.len(),
            forall|q: int| i + 1 <= q < j ==> is_name_cont_spec(#[trigger] v@[q]),
        decreases n - j,
    {
        j = j + 1;
    }
    let ghost len = j - (i + 1);
    proof {
        let w = t.skip(1);
        assert(w =~= v@.skip(i + 1));
        assert forall|q: int| 0 <= q < len implies is_name_cont_spec(#[trigger] w[q]) by {
            assert(w[q] == v@[q + i + 1]);
        }
        if j < n {
            assert(w[len] == v@[j as int]);
        }
        lemma_name_run_exact(w, len);
    }
    let name = string_from_range(v, i + 1, j);
    assert(name@ =~= t.subrange(1, 1 + len));
    let piece = match env_var(env, &name) {
        Some(val) => val,
        None => {
            let lit = string_from_range(v, i, j);
            assert(lit@ =~= t.subrange(0, 1 + len));
            lit
        },
    };
    assert(t.skip(1 + len) =~= v@.skip(j as int));
    (piece, j)
}

proof fn lemma_literal_step(t: Seq<char>, vars: Seq<(Seq<char>, Seq<char>)>)
    requires
        t.len() > 0,
        !(t[0] == '$' && t.len() >= 2 && t[1] == '{' && close_brace(t.skip(2)) is Some),
        !(t[0] == '$' && t.len() >= 2 && t[1] != '{' && is_name_start_spec(t[1])),
    ensures
        expand_env_spec(t, vars) == seq![t[0]] + expand_env_spec(t.drop_first(), vars),
{
}

fn expand_env(s: &str, env: &Env) -> (r: String)
    ensures
        r@ == expand_env_spec(s@, env.view_vars()),
{
    let v = chars_of(s);
    let n = v.len();
    let ghost vars = env.view_vars();
    let mut out = String::new();
    let mut i: usize = 0;
    assert(v@.skip(0) =~= v@);
    assert(out@ + expand_env_spec(v@, vars) =~= expand_env_spec(v@, vars));
    while i < n
        invariant
            i <= n,
            n == v@.len(),
            v@ == s@,
            vars == env.view_vars(),
            out@ + expand_env_spec(v@.skip(i as int), vars) == expand_env_spec(s@, vars),
        decreases n - i,
    {
        let ghost t = v@.skip(i as int);
        let ghost before = out@;
        assert(t.len() > 0 && t[0] == v@[i as int]);
        if i + 1 < n {
            assert(t[1] == v@[i + 1]);
        }
        if v[i] == '$' && i + 1 < n && v[i + 1] == '{' {
            if let Some((piece, next)) = expand_braced_at(&v, i, env) {
                push_str(&mut out, &piece);
                assert(out@ + expand_env_spec(v@.skip(next as int), vars) =~= before + (piece@
                    + expand_env_spec(v@.skip(next as int), vars)));
                i = next;
                continue ;
            }
        } else if v[i] == '$' && i + 1 < n && is_name_start(v[i + 1]) {
            let (piece, next) = expand_named_at(&v, i, env);
            push_str(&mut out, &piece);
            assert(out@ + expand_env_spec(v@.skip(next as int), vars) =~= before + (piece@
                + expand_env_spec(v@.skip(next as int), vars)));
            i = next;
            continue ;
        }
        proof {
            lemma_literal_step(t, vars);
        }
        push_char(&mut out, v[i]);
        assert(t.drop_first() =~= v@.skip(i + 1));
        assert(out@ + expand_env_spec(v@.skip(i + 1), vars) =~= before + (seq![t[0]]
            + expand_env_spec(t.drop_first(), vars)));
        i = i + 1;
    }
    assert(v@.skip(n as int) =~= Seq::<char>::empty());
    assert(out@ + Seq::<char>::empty() =~= out@);
    out
}

/// What `expand` makes of `s`: tilde expansion, then variable expansion.
pub open spec fn expand_spec(s: Seq<char>, vars: Seq<(Seq<char>, Seq<char>)>) -> Seq<char> {
    expand_env_spec(expand_tilde_spec(s, vars), vars)
}

/// Whether `s` holds no `$`: nothing in it names a variable.
pub open spec fn plain_text(s: Seq<char>) -> bool {
    forall|i: int| 0 <= i < s.len() ==> #[trigger] s[i] != '$'
}

/// Plain text comes back from variable expansion unchanged.
pub proof fn law_plain_text_unchanged(s: Seq<char>, vars: Seq<(Seq<char>, Seq<char>)>)
    requires
        plain_text(s),
    ensures
        expand_env_spec(s, vars) == s,
    decreases s.len(),
{
    if s.len() > 0 {
        assert(s[0] != '$');
        assert(plain_text(s.drop_first())) by {
            assert forall|i: int| 0 <= i < s.drop_first().len() implies #[trigger] s.drop_first()[i]
                != '$' by {
                assert(s.drop_first()[i] == s[i + 1]);
            }
        }
        law_plain_text_unchanged(s.drop_first(), vars);
        assert(s =~= seq![s[0]] + s.drop_first());
    }
}

/// A `~` anywhere but at the start, like any plain text, is left alone.
pub proof fn law_inner_tilde_unchanged(s: Seq<char>, vars: Seq<(Seq<char>, Seq<char>)>)
    requires
        plain_text(s),
        s.len() == 0 || s[0] != '~',
    ensures
        expand_spec(s, vars) == s,
{
    law_plain_text_unchanged(s, vars);
}

/// Expands `~` and environment variables in `s`.
pub fn expand(s: &str, env: &Env) -> (r: String)
    ensures
        r@ == expand_spec(s@, env.view_vars()),
{
    let with_home = expand_tilde(s, env);
    expand_env(&with_home, env)
}

/// Expands `~` and environment variables in the path `p`.
pub fn expand_path(p: &str, env: &Env) -> (r: String)
    ensures
        r@ == expand_spec(p@, env.view_vars()),
{
    expand(p, env)
}

} // verus!
