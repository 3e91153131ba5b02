//! What a document URI tells about the file: its path, its project and its language.
use vstd::prelude::*;

use crate::text::{chars_equal, chars_start_with, strip_prefix, to_chars};

verus! {

/// The path of a document: its URI without a leading `file://`.
pub open spec fn file_path(uri: Seq<char>) -> Seq<char> {
    match strip_prefix(uri, "file://"@) {
        Some(path) => path,
        None => uri,
    }
}

/// The pieces of `s` between occurrences of `sep`, as `str::split` gives them
/// (empty pieces included; there is always at least one).
pub open spec fn split_on(s: Seq<char>, sep: char) -> Seq<Seq<char>>
    decreases s.len(),
{
    if s.len() == 0 {
        seq![Seq::empty()]
    } else {
        let prev = split_on(s.drop_last(), sep);
        if s.last() == sep {
            prev.push(Seq::empty())
        } else {
            prev.update(prev.len() - 1, prev.last().push(s.last()))
        }
    }
}

pub open spec fn nonempty() -> spec_fn(Seq<char>) -> bool {
    |c: Seq<char>| c.len() > 0
}

/// The non-empty pieces of a path between its `/` separators.
pub open spec fn path_components(path: Seq<char>) -> Seq<Seq<char>> {
    split_on(path, '/').filter(nonempty())
}

/// The project a path belongs to: with three or more components the one before
/// the last, with exactly two the second, otherwise `Unknown`.
pub open spec fn project_name(path: Seq<char>) -> Seq<char> {
    let c = path_components(path);
    if c.len() >= 3 {
        c[c.len() - 2]
    } else if c.len() >= 2 {
        c[1]
    } else {
        "Unknown"@
    }
}

/// What follows the last `.` of a path; the whole path when it has no `.`.
pub open spec fn extension(path: Seq<char>) -> Seq<char>
    decreases path.len(),
{
    if path.len() == 0 {
        path
    } else if path.last() == '.' {
        Seq::empty()
    } else {
        extension(path.drop_last()).push(path.last())
    }
}

/// The language name for a file extension; an unknown extension names itself.
pub open spec fn language_name(ext: Seq<char>) -> Seq<char> {
    if ext == "rs"@ {
        "Rust"@
    } else if ext == "ts"@ || ext == "tsx"@ {
        "TypeScript"@
    } else if ext == "js"@ || ext == "jsx"@ {
        "JavaScript"@
    } else if ext == "py"@ {
        "Python"@
    } else if ext == "go"@ {
        "Go"@
    } else if ext == "rb"@ {
        "Ruby"@
    } else if ext == "java"@ {
        "Java"@
    } else if ext == "kt"@ || ext == "kts"@ {
        "Kotlin"@
    } else if ext == "swift"@ {
        "Swift"@
    } else if ext == "c"@ || ext == "h"@ {
        "C"@
    } else if ext == "cpp"@ || ext == "hpp"@ || ext == "cc"@ || ext == "cxx"@ {
        "C++"@
    } else if ext == "cs"@ {
        "C#"@
    } else if ext == "php"@ {
        "PHP"@
    } else if ext == "vue"@ {
        "Vue"@
    } else if ext == "svelte"@ {
        "Svelte"@
    } else if ext == "html"@ {
        "HTML"@
    } else if ext == "css"@ || ext == "scss"@ || ext == "less"@ {
        "CSS"@
    } else if ext == "json"@ {
        "JSON"@
    } else if ext == "md"@ {
        "Markdown"@
    } else if ext == "yaml"@ || ext == "yml"@ {
        "YAML"@
    } else if ext == "toml"@ {
        "TOML"@
    } else if ext == "sh"@ || ext == "bash"@ || ext == "zsh"@ {
        "Shell"@
    } else if ext == "sql"@ {
        "SQL"@
    } else if ext == "dart"@ {
        "Dart"@
    } else if ext == "lua"@ {
        "Lua"@
    } else if ext == "elm"@ {
        "Elm"@
    } else if ext == "gleam"@ {
        "Gleam"@
    } else if ext == "clj"@ || ext == "cljs"@ || ext == "cljc"@ {
        "Clojure"@
    } else if ext == "ex"@ || ext == "exs"@ {
        "Elixir"@
    } else if ext == "erl"@ {
        "Erlang"@
    } else if ext == "hs"@ {
        "Haskell"@
    } else if ext == "nim"@ {
        "Nim"@
    } else if ext == "r"@ || ext == "R"@ {
        "R"@
    } else if ext == "zig"@ {
        "Zig"@
    } else {
        ext
    }
}

/// The language of the document at `uri`, judged by its extension.
pub open spec fn language_of_uri(uri: Seq<char>) -> Seq<char> {
    language_name(extension(file_path(uri)))
}

/// The path of a document URI: the URI without a leading `file://`.
pub fn strip_file_scheme(uri: &str) -> (path: &str)
    ensures
        path@ == file_path(uri@),
{
    let chars = to_chars(uri);
    let scheme = to_chars("file://");
    if chars_start_with(chars.as_slice(), scheme.as_slice()) {
        uri.substring_char(scheme.len(), chars.len())
    } else {
        uri
    }
}

pub proof fn lemma_split_on_nonempty(s: Seq<char>, sep: char)
    ensures
        split_on(s, sep).len() >= 1,
    decreases s.len(),
{
    if s.len() > 0 {
        lemma_split_on_nonempty(s.drop_last(), sep);
    }
}

/// The bounds of the non-empty `/`-separated components of `s`.
fn component_bounds(s: &[char]) -> (r: Vec<(usize, usize)>)
    ensures
        r@.len() == path_components(s@).len(),
        forall|k: int|
            0 <= k < r@.len() ==> {
                &&& (#[trigger] r@[k]).0 <= r@[k].1 <= s@.len()
                &&& s@.subrange(r@[k].0 as int, r@[k].1 as int) == path_components(s@)[k]
            },
{
    let n = s.len();
    let mut r: Vec<(usize, usize)> = Vec::new();
    let ghost mut comps: Seq<Seq<char>> = Seq::empty();
    let mut start: usize = 0;
    let mut i: usize = 0;
    assert(s@.take(0) == Seq::<char>::empty());
    assert(split_on(s@.take(0), '/').drop_last().len() == 0);
    proof {
        reveal(Seq::filter);
    }
    while i < n
        invariant
            n == s@.len(),
            start <= i <= n,
            split_on(s@.take(i as int), '/').len() >= 1,
            s@.subrange(start as int, i as int) == split_on(s@.take(i as int), '/').last(),
            comps == split_on(s@.take(i as int), '/').drop_last().filter(nonempty()),
            r@.len() == comps.len(),
            forall|k: int|
                0 <= k < r@.len() ==> {
                    &&& (#[trigger] r@[k]).0 <= r@[k].1 <= s@.len()
                    &&& s@.subrange(r@[k].0 as int, r@[k].1 as int) == comps[k]
                },
        decreases n - i,
    {
        let ghost prev = split_on(s@.take(i as int), '/');
        assert(s@.take(i + 1).drop_last() == s@.take(i as int));
        assert(s@.take(i + 1).last() == s@[i as int]);
        if s[i] == '/' {
            proof {
                let next = prev.push(Seq::empty());
                assert(split_on(s@.take(i + 1), '/') == next);
                assert(next.drop_last() == prev);
                reveal(Seq::filter);
                assert(prev.filter(nonempty()) == if prev.last().len() > 0 {
                    prev.drop_last().filter(nonempty()).push(prev.last())
                } else {
                    prev.drop_last().filter(nonempty())
                });
            }
            if i > start {
                r.push((start, i));
                proof {
                    comps = comps.push(prev.last());
                }
            }
            start = i + 1;
            assert(s@.subrange(start as int, i + 1).len() == 0);
        } else {
            proof {
                let next = prev.update(prev.len() - 1, prev.last().push(s@[i as int]));
                assert(split_on(s@.take(i + 1), '/') == next);
                assert(next.drop_last() == prev.drop_last());
                assert(s@.subrange(start as int, i + 1) == prev.last().push(s@[i as int]));
            }
        }
        i = i + 1;
    }
    proof {
        let all = split_on(s@, '/');
        assert(s@.take(n as int) == s@);
        assert(all == all.drop_last().push(all.last()));
        reveal(Seq::filter);
        assert(all.filter(nonempty()) == if all.last().len() > 0 {
            all.drop_last().filter(nonempty()).push(all.last())
        } else {
            all.drop_last().filter(nonempty())
        });
    }
    if n > start {
        r.push((start, n));
        proof {
            comps = comps.push(split_on(s@, '/').last());
        }
    }
    assert(comps == path_components(s@));
    r
}

/// The project a file path belongs to (see `project_name`).
pub fn extract_project(path: &str) -> (project: String)
    ensures
        project@ == project_name(path@),
{
    let chars = to_chars(path);
    let bounds = component_bounds(chars.as_slice());
    let count = bounds.len();
    if count >= 3 {
        let (a, b) = bounds[count - 2];
        path.substring_char(a, b).to_owned()
    } else if count >= 2 {
        let (a, b) = bounds[1];
        path.substring_char(a, b).to_owned()
    } else {
        "Unknown".to_owned()
    }
}

/// Where the extension of `path` starts: just past its last `.`, or 0.
fn extension_start(path: &[char]) -> (j: usize)
    ensures
        j <= path@.len(),
        path@.subrange(j as int, path@.len() as int) == extension(path@),
{
    let n = path.len();
    let mut j: usize = n;
    assert(path@.take(n as int) == path@);
    assert(path@.subrange(n as int, n as int) == Seq::<char>::empty());
    while j > 0 && path[j - 1] != '.'
        invariant
            n == path@.len(),
            j <= n,
            extension(path@) == extension(path@.take(j as int)) + path@.subrange(
                j as int,
                n as int,
            ),
        decreases j,
    {
        let ghost t = path@.take(j as int);
        assert(t.drop_last() == path@.take(j - 1));
        assert(t.last() == path@[j - 1]);
        assert(path@.subrange(j - 1, n as int) == seq![path@[j - 1]] + path@.subrange(
            j as int,
            n as int,
        ));
        assert(extension(t) == extension(path@.take(j - 1)).push(path@[j - 1]));
        assert(extension(path@.take(j - 1)).push(path@[j - 1]) + path@.subrange(j as int, n as int)
            == extension(path@.take(j - 1)) + path@.subrange(j - 1, n as int));
        j = j - 1;
    }
    proof {
        let t = path@.take(j as int);
        if j > 0 {
            assert(t.last() == path@[j - 1]);
        }
        assert(extension(t).len() == 0);
        assert(extension(path@) == path@.subrange(j as int, n as int));
    }
    j
}

fn is_ext(ext: &[char], name: &str) -> (b: bool)
    ensures
        b == (ext@ == name@),
{
    let name_chars = to_chars(name);
    chars_equal(ext, name_chars.as_slice())
}

/// The language name for the extension `ext` of `path` (see `language_name`).
fn language_for(path: &str, ext: &[char], start: usize) -> (lang: String)
    requires
        start <= path@.len(),
        ext@ == path@.subrange(start as int, path@.len() as int),
    ensures
        lang@ == language_name(ext@),
{
    let name = if is_ext(ext, "rs") {
        "Rust"
    } else if is_ext(ext, "ts") || is_ext(ext, "tsx") {
        "TypeScript"
    } else if is_ext(ext, "js") || is_ext(ext, "jsx") {
        "JavaScript"
    } else if is_ext(ext, "py") {
        "Python"
    } else if is_ext(ext, "go") {
        "Go"
    } else if is_ext(ext, "rb") {
        "Ruby"
    } else if is_ext(ext, "java") {
        "Java"
    } else if is_ext(ext, "kt") || is_ext(ext, "kts") {
        "Kotlin"
    } else if is_ext(ext, "swift") {
        "Swift"
    } else if is_ext(ext, "c") || is_ext(ext, "h") {
        "C"
    } else if is_ext(ext, "cpp") || is_ext(ext, "hpp") || is_ext(ext, "cc") || is_ext(ext, "cxx") {
        "C++"
    } else if is_ext(ext, "cs") {
        "C#"
    } else if is_ext(ext, "php") {
        "PHP"
    } else if is_ext(ext, "vue") {
        "Vue"
    } else if is_ext(ext, "svelte") {
        "Svelte"
    } else if is_ext(ext, "html") {
        "HTML"
    } else if is_ext(ext, "css") || is_ext(ext, "scss") || is_ext(ext, "less") {
        "CSS"
    } else if is_ext(ext, "json") {
        "JSON"
    } else if is_ext(ext, "md") {
        "Markdown"
    } else if is_ext(ext, "yaml") || is_ext(ext, "yml") {
        "YAML"
    } else if is_ext(ext, "toml") {
        "TOML"
    } else if is_ext(ext, "sh") || is_ext(ext, "bash") || is_ext(ext, "zsh") {
        "Shell"
    } else if is_ext(ext, "sql") {
        "SQL"
    } else if is_ext(ext, "dart") {
        "Dart"
    } else if is_ext(ext, "lua") {
        "Lua"
    } else if is_ext(ext, "elm") {
        "Elm"
    } else if is_ext(ext, "gleam") {
        "Gleam"
    } else if is_ext(ext, "clj") || is_ext(ext, "cljs") || is_ext(ext, "cljc") {
        "Clojure"
    } else if is_ext(ext, "ex") || is_ext(ext, "exs") {
        "Elixir"
    } else if is_ext(ext, "erl") {
        "Erlang"
    } else if is_ext(ext, "hs") {
        "Haskell"
    } else if is_ext(ext, "nim") {
        "Nim"
    } else if is_ext(ext, "r") || is_ext(ext, "R") {
        "R"
    } else if is_ext(ext, "zig") {
        "Zig"
    } else {
        path.substring_char(start, path.unicode_len())
    };
    name.to_owned()
}

/// The language of the document at `uri`, judged by the extension of its path
/// (see `language_name`).
pub fn infer_language_from_uri(uri: &str) -> (lang: String)
    ensures
        lang@ == language_of_uri(uri@),
{
    let path = strip_file_scheme(uri);
    let chars = to_chars(path);
    let start = extension_start(chars.as_slice());
    let ext = &chars.as_slice()[start..chars.len()];
    language_for(path, ext, start)
}

proof fn lemma_split_on_join(a: Seq<char>, b: Seq<char>)
    ensures
        split_on(a + seq!['/'] + b, '/') == split_on(a, '/') + split_on(b, '/'),
    decreases b.len(),
{
    let t = a + seq!['/'] + b;
    lemma_split_on_nonempty(a, '/');
    if b.len() == 0 {
        assert(t == a.push('/'));
        assert(t.drop_last() == a);
        assert(split_on(b, '/') == seq![Seq::<char>::empty()]);
        assert(split_on(t, '/') == split_on(a, '/').push(Seq::<char>::empty()));
        assert(split_on(a, '/').push(Seq::<char>::empty()) =~= split_on(a, '/') + split_on(b, '/'));
    } else {
        lemma_split_on_join(a, b.drop_last());
        lemma_split_on_nonempty(b.drop_last(), '/');
        assert(t.drop_last() == a + seq!['/'] + b.drop_last());
        assert(t.last() == b.last());
        let x = split_on(a, '/');
        let y = split_on(b.drop_last(), '/');
        let q = split_on(t.drop_last(), '/');
        assert(q == x + y);
        if b.last() == '/' {
            assert(split_on(t, '/') == q.push(Seq::<char>::empty()));
            assert(split_on(b, '/') == y.push(Seq::<char>::empty()));
            assert(q.push(Seq::<char>::empty()) =~= x + y.push(Seq::<char>::empty()));
        } else {
            let c = b.last();
            assert(split_on(t, '/') == q.update(q.len() - 1, q.last().push(c)));
            assert(split_on(b, '/') == y.update(y.len() - 1, y.last().push(c)));
            assert(q.last() == y.last());
            assert(q.update(q.len() - 1, q.last().push(c)) =~= x + y.update(
                y.len() - 1,
                y.last().push(c),
            ));
        }
    }
}

/// A path with no characters has no components.
pub proof fn lemma_components_of_empty()
    ensures
        path_components(Seq::empty()).len() == 0,
{
    let e = seq![Seq::<char>::empty()];
    assert(split_on(Seq::<char>::empty(), '/') == e);
    reveal(Seq::filter);
    assert(e.drop_last().len() == 0);
    assert(e.drop_last().filter(nonempty()).len() == 0);
    assert(!(nonempty())(e.last()));
}

/// A `/` between two paths joins their components: the components of
/// `a/b` are those of `a` followed by those of `b`.
pub proof fn lemma_components_join(a: Seq<char>, b: Seq<char>)
    ensures
        path_components(a + seq!['/'] + b) == path_components(a) + path_components(b),
{
    lemma_split_on_join(a, b);
    Seq::filter_distributes_over_add(split_on(a, '/'), split_on(b, '/'), nonempty());
}

/// Slashes at the start of a path do not change its components, hence not its
/// project either.
pub proof fn lemma_leading_slash_ignored(path: Seq<char>)
    ensures
        path_components(seq!['/'] + path) == path_components(path),
        project_name(seq!['/'] + path) == project_name(path),
{
    lemma_components_join(Seq::empty(), path);
    lemma_components_of_empty();
    assert(Seq::<char>::empty() + seq!['/'] + path == seq!['/'] + path);
    assert(path_components(Seq::empty()) + path_components(path) == path_components(path));
}

/// A slash at the end of a path does not change its components, hence not its
/// project either.
pub proof fn lemma_trailing_slash_ignored(path: Seq<char>)
    ensures
        path_components(path + seq!['/']) == path_components(path),
        project_name(path + seq!['/']) == project_name(path),
{
    lemma_components_join(path, Seq::empty());
    lemma_components_of_empty();
    assert(path + seq!['/'] + Seq::<char>::empty() == path + seq!['/']);
    assert(path_components(path) + path_components(Seq::empty()) == path_components(path));
}

/// `path` with every `/` written twice.
pub open spec fn double_slashes(path: Seq<char>) -> Seq<char>
    decreases path.len(),
{
    if path.len() == 0 {
        path
    } else if path.last() == '/' {
        double_slashes(path.drop_last()) + seq!['/', '/']
    } else {
        double_slashes(path.drop_last()).push(path.last())
    }
}

proof fn lemma_double_slashes_before(path: Seq<char>, rest: Seq<char>)
    ensures
        path_components(double_slashes(path) + rest) == path_components(path + rest),
    decreases path.len(),
{
    if path.len() > 0 {
        let q = path.drop_last();
        let c = path.last();
        assert(path == q.push(c));
        if c == '/' {
            let r = seq!['/'] + rest;
            lemma_double_slashes_before(q, seq!['/'] + r);
            assert(double_slashes(path) + rest == double_slashes(q) + (seq!['/'] + r));
            assert(q + (seq!['/'] + r) == q + seq!['/'] + r);
            lemma_components_join(q, r);
            lemma_leading_slash_ignored(rest);
            lemma_components_join(q, rest);
            assert(path + rest == q + seq!['/'] + rest);
        } else {
            lemma_double_slashes_before(q, seq![c] + rest);
            assert(double_slashes(path) + rest == double_slashes(q) + (seq![c] + rest));
            assert(path + rest == q + (seq![c] + rest));
        }
    }
}

/// Repeated, leading and trailing slashes do not change the components of a
/// path, hence not its project: writing every `/` twice and adding a `/` at
/// both ends changes nothing.
pub proof fn lemma_extra_slashes_ignored(path: Seq<char>)
    ensures
        path_components(seq!['/'] + double_slashes(path) + seq!['/']) == path_components(path),
        project_name(seq!['/'] + double_slashes(path) + seq!['/']) == project_name(path),
{
    let d = double_slashes(path);
    lemma_double_slashes_before(path, Seq::empty());
    assert(d + Seq::<char>::empty() == d);
    assert(path + Seq::<char>::empty() == path);
    lemma_trailing_slash_ignored(d);
    lemma_leading_slash_ignored(d + seq!['/']);
    assert(seq!['/'] + d + seq!['/'] == seq!['/'] + (d + seq!['/']));
}

/// A piece without any `/` is its own single component (if it is not empty).
proof fn lemma_split_on_no_separator(x: Seq<char>)
    requires
        forall|i: int| 0 <= i < x.len() ==> x[i] != '/',
    ensures
        split_on(x, '/') == seq![x],
    decreases x.len(),
{
    if x.len() > 0 {
        let y = x.drop_last();
        assert forall|i: int| 0 <= i < y.len() implies y[i] != '/' by {
            assert(y[i] == x[i]);
        }
        lemma_split_on_no_separator(y);
        assert(x[x.len() - 1] != '/');
        assert(split_on(x, '/') == seq![y].update(0, y.push(x.last())));
        assert(y.push(x.last()) == x);
        assert(seq![y].update(0, x) =~= seq![x]);
    } else {
        assert(x =~= Seq::<char>::empty());
    }
}

proof fn lemma_single_component(x: Seq<char>)
    requires
        x.len() > 0,
        forall|i: int| 0 <= i < x.len() ==> x[i] != '/',
    ensures
        path_components(x) == seq![x],
{
    lemma_split_on_no_separator(x);
    reveal(Seq::filter);
    assert(seq![x].drop_last().len() == 0);
    assert(seq![x].drop_last().filter(nonempty()).len() == 0);
    assert((nonempty())(x));
    assert(Seq::<Seq<char>>::empty().push(x) == seq![x]);
}

/// With three or more components the project is the directory holding the
/// file: for a path `a` with at least one component, a directory `d` and a file
/// `f` (neither empty, neither holding `/`), the project of `a/d/f` is `d`.
pub proof fn lemma_project_is_parent_directory(a: Seq<char>, d: Seq<char>, f: Seq<char>)
    requires
        path_components(a).len() >= 1,
        d.len() > 0,
        f.len() > 0,
        forall|i: int| 0 <= i < d.len() ==> d[i] != '/',
        forall|i: int| 0 <= i < f.len() ==> f[i] != '/',
    ensures
        project_name(a + seq!['/'] + d + seq!['/'] + f) == d,
{
    lemma_single_component(d);
    lemma_single_component(f);
    lemma_components_join(d, f);
    lemma_components_join(a, d + seq!['/'] + f);
    assert(a + seq!['/'] + d + seq!['/'] + f == a + seq!['/'] + (d + seq!['/'] + f));
    let c = path_components(a) + (seq![d] + seq![f]);
    assert(c.len() >= 3);
    assert(c[c.len() - 2] == d);
}

/// With exactly two components the project is the second one: for a
/// directory `d` and a file `f` (neither empty, neither holding `/`), the
/// project of `d/f` is `f`.
pub proof fn lemma_project_of_two_components(d: Seq<char>, f: Seq<char>)
    requires
        d.len() > 0,
        f.len() > 0,
        forall|i: int| 0 <= i < d.len() ==> d[i] != '/',
        forall|i: int| 0 <= i < f.len() ==> f[i] != '/',
    ensures
        project_name(d + seq!['/'] + f) == f,
{
    lemma_single_component(d);
    lemma_single_component(f);
    lemma_components_join(d, f);
    assert(seq![d] + seq![f] == seq![d, f]);
}

/// A path with a single component belongs to no known project.
pub proof fn lemma_project_of_one_component(f: Seq<char>)
    requires
        f.len() > 0,
        forall|i: int| 0 <= i < f.len() ==> f[i] != '/',
    ensures
        project_name(f) == "Unknown"@,
{
    lemma_single_component(f);
}

proof fn lemma_extension_after_dot(q: Seq<char>, e: Seq<char>)
    requires
        forall|i: int| 0 <= i < e.len() ==> e[i] != '.',
    ensures
        extension(q + seq!['.'] + e) == e,
    decreases e.len(),
{
    let t = q + seq!['.'] + e;
    if e.len() == 0 {
        assert(t == q.push('.'));
    } else {
        lemma_extension_after_dot(q, e.drop_last());
        assert(t.drop_last() == q + seq!['.'] + e.drop_last());
        assert(t.last() == e.last());
        assert(e.drop_last().push(e.last()) == e);
    }
}

/// The path of `p.e` ends in `.e`, whatever `p` is.
proof fn lemma_file_path_keeps_extension(p: Seq<char>, e: Seq<char>)
    ensures
        exists|q: Seq<char>| file_path(p + seq!['.'] + e) == q + seq!['.'] + e,
{
    reveal_strlit("file://");
    let u = p + seq!['.'] + e;
    let s = "file://"@;
    if s.is_prefix_of(u) {
        if p.len() < 7 {
            assert(u[p.len() as int] == '.');
            assert(s[p.len() as int] == u[p.len() as int]);
        }
        let q = p.skip(7);
        assert(u.skip(7) == q + seq!['.'] + e);
        assert(file_path(u) == q + seq!['.'] + e);
    } else {
        assert(file_path(u) == p + seq!['.'] + e);
    }
}

/// The language of `p.e` is the table's language for `e`, whatever `p` is
/// (for an extension `e` without a `.`).
pub proof fn lemma_language_after_dot(p: Seq<char>, e: Seq<char>)
    requires
        forall|i: int| 0 <= i < e.len() ==> e[i] != '.',
    ensures
        language_of_uri(p + seq!['.'] + e) == language_name(e),
{
    lemma_file_path_keeps_extension(p, e);
    let q = choose|q: Seq<char>| file_path(p + seq!['.'] + e) == q + seq!['.'] + e;
    lemma_extension_after_dot(q, e);
}

/// The length, first and last character of each extension in the table;
/// no two extensions agree on all three.
proof fn lemma_extension_literals()
    ensures
        "rs"@.len() == 2 && "rs"@[0] == 'r' && "rs"@[1] == 's',
        "ts"@.len() == 2 && "ts"@[0] == 't' && "ts"@[1] == 's',
        "tsx"@.len() == 3 && "tsx"@[0] == 't' && "tsx"@[2] == 'x',
        "js"@.len() == 2 && "js"@[0] == 'j' && "js"@[1] == 's',
        "jsx"@.len() == 3 && "jsx"@[0] == 'j' && "jsx"@[2] == 'x',
        "py"@.len() == 2 && "py"@[0] == 'p' && "py"@[1] == 'y',
        "go"@.len() == 2 && "go"@[0] == 'g' && "go"@[1] == 'o',
        "rb"@.len() == 2 && "rb"@[0] == 'r' && "rb"@[1] == 'b',
        "java"@.len() == 4 && "java"@[0] == 'j' && "java"@[3] == 'a',
        "kt"@.len() == 2 && "kt"@[0] == 'k' && "kt"@[1] == 't',
        "kts"@.len() == 3 && "kts"@[0] == 'k' && "kts"@[2] == 's',
        "swift"@.len() == 5 && "swift"@[0] == 's' && "swift"@[4] == 't',
        "c"@.len() == 1 && "c"@[0] == 'c' && "c"@[0] == 'c',
        "h"@.len() == 1 && "h"@[0] == 'h' && "h"@[0] == 'h',
        "cpp"@.len() == 3 && "cpp"@[0] == 'c' && "cpp"@[2] == 'p',
        "hpp"@.len() == 3 && "hpp"@[0] == 'h' && "hpp"@[2] == 'p',
        "cc"@.len() == 2 && "cc"@[0] == 'c' && "cc"@[1] == 'c',
        "cxx"@.len() == 3 && "cxx"@[0] == 'c' && "cxx"@[2] == 'x',
        "cs"@.len() == 2 && "cs"@[0] == 'c' && "cs"@[1] == 's',
        "php"@.len() == 3 && "php"@[0] == 'p' && "php"@[2] == 'p',
        "vue"@.len() == 3 && "vue"@[0] == 'v' && "vue"@[2] == 'e',
        "svelte"@.len() == 6 && "svelte"@[0] == 's' && "svelte"@[5] == 'e',
        "html"@.len() == 4 && "html"@[0] == 'h' && "html"@[3] == 'l',
        "css"@.len() == 3 && "css"@[0] == 'c' && "css"@[2] == 's',
        "scss"@.len() == 4 && "scss"@[0] == 's' && "scss"@[3] == 's',
        "less"@.len() == 4 && "less"@[0] == 'l' && "less"@[3] == 's',
        "json"@.len() == 4 && "json"@[0] == 'j' && "json"@[3] == 'n',
        "md"@.len() == 2 && "md"@[0] == 'm' && "md"@[1] == 'd',
        "yaml"@.len() == 4 && "yaml"@[0] == 'y' && "yaml"@[3] == 'l',
        "yml"@.len() == 3 && "yml"@[0] == 'y' && "yml"@[2] == 'l',
        "toml"@.len() == 4 && "toml"@[0] == 't' && "toml"@[3] == 'l',
        "sh"@.len() == 2 && "sh"@[0] == 's' && "sh"@[1] == 'h',
        "bash"@.len() == 4 && "bash"@[0] == 'b' && "bash"@[3] == 'h',
        "zsh"@.len() == 3 && "zsh"@[0] == 'z' && "zsh"@[2] == 'h',
        "sql"@.len() == 3 && "sql"@[0] == 's' && "sql"@[2] == 'l',
        "dart"@.len() == 4 && "dart"@[0] == 'd' && "dart"@[3] == 't',
        "lua"@.len() == 3 && "lua"@[0] == 'l' && "lua"@[2] == 'a',
        "elm"@.len() == 3 && "elm"@[0] == 'e' && "elm"@[2] == 'm',
        "gleam"@.len() == 5 && "gleam"@[0] == 'g' && "gleam"@[4] == 'm',
        "clj"@.len() == 3 && "clj"@[0] == 'c' && "clj"@[2] == 'j',
        "cljs"@.len() == 4 && "cljs"@[0] == 'c' && "cljs"@[3] == 's',
        "cljc"@.len() == 4 && "cljc"@[0] == 'c' && "cljc"@[3] == 'c',
        "ex"@.len() == 2 && "ex"@[0] == 'e' && "ex"@[1] == 'x',
        "exs"@.len() == 3 && "exs"@[0] == 'e' && "exs"@[2] == 's',
        "erl"@.len() == 3 && "erl"@[0] == 'e' && "erl"@[2] == 'l',
        "hs"@.len() == 2 && "hs"@[0] == 'h' && "hs"@[1] == 's',
        "nim"@.len() == 3 && "nim"@[0] == 'n' && "nim"@[2] == 'm',
        "r"@.len() == 1 && "r"@[0] == 'r' && "r"@[0] == 'r',
        "R"@.len() == 1 && "R"@[0] == 'R' && "R"@[0] == 'R',
        "zig"@.len() == 3 && "zig"@[0] == 'z' && "zig"@[2] == 'g',
{
    broadcast use vstd::string::group_string_axioms;

    reveal_strlit("rs");
    reveal_strlit("ts");
    reveal_strlit("tsx");
    reveal_strlit("js");
    reveal_strlit("jsx");
    reveal_strlit("py");
    reveal_strlit("go");
    reveal_strlit("rb");
    reveal_strlit("java");
    reveal_strlit("kt");
    reveal_strlit("kts");
    reveal_strlit("swift");
    reveal_strlit("c");
    reveal_strlit("h");
    reveal_strlit("cpp");
    reveal_strlit("hpp");
    reveal_strlit("cc");
    reveal_strlit("cxx");
    reveal_strlit("cs");
    reveal_strlit("php");
    reveal_strlit("vue");
    reveal_strlit("svelte");
    reveal_strlit("html");
    reveal_strlit("css");
    reveal_strlit("scss");
    reveal_strlit("less");
    reveal_strlit("json");
    reveal_strlit("md");
    reveal_strlit("yaml");
    reveal_strlit("yml");
    reveal_strlit("toml");
    reveal_strlit("sh");
    reveal_strlit("bash");
    reveal_strlit("zsh");
    reveal_strlit("sql");
    reveal_strlit("dart");
    reveal_strlit("lua");
    reveal_strlit("elm");
    reveal_strlit("gleam");
    reveal_strlit("clj");
    reveal_strlit("cljs");
    reveal_strlit("cljc");
    reveal_strlit("ex");
    reveal_strlit("exs");
    reveal_strlit("erl");
    reveal_strlit("hs");
    reveal_strlit("nim");
    reveal_strlit("r");
    reveal_strlit("R");
    reveal_strlit("zig");
}

proof fn lemma_language_table_part_0(p: Seq<char>)
    ensures
        language_of_uri(p + seq!['.'] + "rs"@) == "Rust"@,
        language_of_uri(p + seq!['.'] + "ts"@) == "TypeScript"@,
        language_of_uri(p + seq!['.'] + "tsx"@) == "TypeScript"@,
        language_of_uri(p + seq!['.'] + "js"@) == "JavaScript"@,
        language_of_uri(p + seq!['.'] + "jsx"@) == "JavaScript"@,
{
    lemma_extension_literals();
    reveal_strlit("rs");
    lemma_language_after_dot(p, "rs"@);
    reveal_strlit("ts");
    lemma_language_after_dot(p, "ts"@);
    reveal_strlit("tsx");
    lemma_language_after_dot(p, "tsx"@);
    reveal_strlit("js");
    lemma_language_after_dot(p, "js"@);
    reveal_strlit("jsx");
    lemma_language_after_dot(p, "jsx"@);
}

proof fn lemma_language_table_part_1(p: Seq<char>)
    ensures
        language_of_uri(p + seq!['.'] + "py"@) == "Python"@,
        language_of_uri(p + seq!['.'] + "go"@) == "Go"@,
        language_of_uri(p + seq!['.'] + "rb"@) == "Ruby"@,
        language_of_uri(p + seq!['.'] + "java"@) == "Java"@,
        language_of_uri(p + seq!['.'] + "kt"@) == "Kotlin"@,
{
    lemma_extension_literals();
    reveal_strlit("py");
    lemma_language_after_dot(p, "py"@);
    reveal_strlit("go");
    lemma_language_after_dot(p, "go"@);
    reveal_strlit("rb");
    lemma_language_after_dot(p, "rb"@);
    reveal_strlit("java");
    lemma_language_after_dot(p, "java"@);
    reveal_strlit("kt");
    lemma_language_after_dot(p, "kt"@);
}

proof fn lemma_language_table_part_2(p: Seq<char>)
    ensures
        language_of_uri(p + seq!['.'] + "kts"@) == "Kotlin"@,
        language_of_uri(p + seq!['.'] + "swift"@) == "Swift"@,
        language_of_uri(p + seq!['.'] + "c"@) == "C"@,
        language_of_uri(p + seq!['.'] + "h"@) == "C"@,
        language_of_uri(p + seq!['.'] + "cpp"@) == "C++"@,
{
    lemma_extension_literals();
    reveal_strlit("kts");
    lemma_language_after_dot(p, "kts"@);
    reveal_strlit("swift");
    lemma_language_after_dot(p, "swift"@);
    reveal_strlit("c");
    lemma_language_after_dot(p, "c"@);
    reveal_strlit("h");
    lemma_language_after_dot(p, "h"@);
    reveal_strlit("cpp");
    lemma_language_after_dot(p, "cpp"@);
}

proof fn lemma_language_table_part_3(p: Seq<char>)
    ensures
        language_of_uri(p + seq!['.'] + "hpp"@) == "C++"@,
        language_of_uri(p + seq!['.'] + "cc"@) == "C++"@,
        language_of_uri(p + seq!['.'] + "cxx"@) == "C++"@,
        language_of_uri(p + seq!['.'] + "cs"@) == "C#"@,
        language_of_uri(p + seq!['.'] + "php"@) == "PHP"@,
{
    lemma_extension_literals();
    reveal_strlit("hpp");
    lemma_language_after_dot(p, "hpp"@);
    reveal_strlit("cc");
    lemma_language_after_dot(p, "cc"@);
    reveal_strlit("cxx");
    lemma_language_after_dot(p, "cxx"@);
    reveal_strlit("cs");
    lemma_language_after_dot(p, "cs"@);
    reveal_strlit("php");
    lemma_language_after_dot(p, "php"@);
}

proof fn lemma_language_table_part_4(p: Seq<char>)
    ensures
        language_of_uri(p + seq!['.'] + "vue"@) == "Vue"@,
        language_of_uri(p + seq!['.'] + "svelte"@) == "Svelte"@,
        language_of_uri(p + seq!['.'] + "html"@) == "HTML"@,
        language_of_uri(p + seq!['.'] + "css"@) == "CSS"@,
        language_of_uri(p + seq!['.'] + "scss"@) == "CSS"@,
{
    lemma_extension_literals();
    reveal_strlit("vue");
    lemma_language_after_dot(p, "vue"@);
    reveal_strlit("svelte");
    lemma_language_after_dot(p, "svelte"@);
    reveal_strlit("html");
    lemma_language_after_dot(p, "html"@);
    reveal_strlit("css");
    lemma_language_after_dot(p, "css"@);
    reveal_strlit("scss");
    lemma_language_after_dot(p, "scss"@);
}

proof fn lemma_language_table_part_5(p: Seq<char>)
    ensures
        language_of_uri(p + seq!['.'] + "less"@) == "CSS"@,
        language_of_uri(p + seq!['.'] + "json"@) == "JSON"@,
        language_of_uri(p + seq!['.'] + "md"@) == "Markdown"@,
        language_of_uri(p + seq!['.'] + "yaml"@) == "YAML"@,
        language_of_uri(p + seq!['.'] + "yml"@) == "YAML"@,
{
    lemma_extension_literals();
    reveal_strlit("less");
    lemma_language_after_dot(p, "less"@);
    reveal_strlit("json");
    lemma_language_after_dot(p, "json"@);
    reveal_strlit("md");
    lemma_language_after_dot(p, "md"@);
    reveal_strlit("yaml");
    lemma_language_after_dot(p, "yaml"@);
    reveal_strlit("yml");
    lemma_language_after_dot(p, "yml"@);
}

proof fn lemma_language_table_part_6(p: Seq<char>)
    ensures
        language_of_uri(p + seq!['.'] + "toml"@) == "TOML"@,
        language_of_uri(p + seq!['.'] + "sh"@) == "Shell"@,
        language_of_uri(p + seq!['.'] + "bash"@) == "Shell"@,
        language_of_uri(p + seq!['.'] + "zsh"@) == "Shell"@,
        language_of_uri(p + seq!['.'] + "sql"@) == "SQL"@,
{
    lemma_extension_literals();
    reveal_strlit("toml");
    lemma_language_after_dot(p, "toml"@);
    reveal_strlit("sh");
    lemma_language_after_dot(p, "sh"@);
    reveal_strlit("bash");
    lemma_language_after_dot(p, "bash"@);
    reveal_strlit("zsh");
    lemma_language_after_dot(p, "zsh"@);
    reveal_strlit("sql");
    lemma_language_after_dot(p, "sql"@);
}

proof fn lemma_language_table_part_7(p: Seq<char>)
    ensures
        language_of_uri(p + seq!['.'] + "dart"@) == "Dart"@,
        language_of_uri(p + seq!['.'] + "lua"@) == "Lua"@,
        language_of_uri(p + seq!['.'] + "elm"@) == "Elm"@,
        language_of_uri(p + seq!['.'] + "gleam"@) == "Gleam"@,
        language_of_uri(p + seq!['.'] + "clj"@) == "Clojure"@,
{
    lemma_extension_literals();
    reveal_strlit("dart");
    lemma_language_after_dot(p, "dart"@);
    reveal_strlit("lua");
    lemma_language_after_dot(p, "lua"@);
    reveal_strlit("elm");
    lemma_language_after_dot(p, "elm"@);
    reveal_strlit("gleam");
    lemma_language_after_dot(p, "gleam"@);
    reveal_strlit("clj");
    lemma_language_after_dot(p, "clj"@);
}

proof fn lemma_language_table_part_8(p: Seq<char>)
    ensures
        language_of_uri(p + seq!['.'] + "cljs"@) == "Clojure"@,
        language_of_uri(p + seq!['.'] + "cljc"@) == "Clojure"@,
        language_of_uri(p + seq!['.'] + "ex"@) == "Elixir"@,
        language_of_uri(p + seq!['.'] + "exs"@) == "Elixir"@,
        language_of_uri(p + seq!['.'] + "erl"@) == "Erlang"@,
{
    lemma_extension_literals();
    reveal_strlit("cljs");
    lemma_language_after_dot(p, "cljs"@);
    reveal_strlit("cljc");
    lemma_language_after_dot(p, "cljc"@);
    reveal_strlit("ex");
    lemma_language_after_dot(p, "ex"@);
    reveal_strlit("exs");
    lemma_language_after_dot(p, "exs"@);
    reveal_strlit("erl");
    lemma_language_after_dot(p, "erl"@);
}

proof fn lemma_language_table_part_9(p: Seq<char>)
    ensures
        language_of_uri(p + seq!['.'] + "hs"@) == "Haskell"@,
        language_of_uri(p + seq!['.'] + "nim"@) == "Nim"@,
        language_of_uri(p + seq!['.'] + "r"@) == "R"@,
        language_of_uri(p + seq!['.'] + "R"@) == "R"@,
        language_of_uri(p + seq!['.'] + "zig"@) == "Zig"@,
{
    lemma_extension_literals();
    reveal_strlit("hs");
    lemma_language_after_dot(p, "hs"@);
    reveal_strlit("nim");
    lemma_language_after_dot(p, "nim"@);
    reveal_strlit("r");
    lemma_language_after_dot(p, "r"@);
    reveal_strlit("R");
    lemma_language_after_dot(p, "R"@);
    reveal_strlit("zig");
    lemma_language_after_dot(p, "zig"@);
}

/// The extension table: for any path, a final `.ext` gives the listed
/// language (`.js` and `.jsx` are JavaScript, `.ts` and `.tsx` TypeScript, and
/// so on for every entry).
pub proof fn lemma_language_table(p: Seq<char>)
    ensures
        language_of_uri(p + seq!['.'] + "rs"@) == "Rust"@,
        language_of_uri(p + seq!['.'] + "ts"@) == "TypeScript"@,
        language_of_uri(p + seq!['.'] + "tsx"@) == "TypeScript"@,
        language_of_uri(p + seq!['.'] + "js"@) == "JavaScript"@,
        language_of_uri(p + seq!['.'] + "jsx"@) == "JavaScript"@,
        language_of_uri(p + seq!['.'] + "py"@) == "Python"@,
        language_of_uri(p + seq!['.'] + "go"@) == "Go"@,
        language_of_uri(p + seq!['.'] + "rb"@) == "Ruby"@,
        language_of_uri(p + seq!['.'] + "java"@) == "Java"@,
        language_of_uri(p + seq!['.'] + "kt"@) == "Kotlin"@,
        language_of_uri(p + seq!['.'] + "kts"@) == "Kotlin"@,
        language_of_uri(p + seq!['.'] + "swift"@) == "Swift"@,
        language_of_uri(p + seq!['.'] + "c"@) == "C"@,
        language_of_uri(p + seq!['.'] + "h"@) == "C"@,
        language_of_uri(p + seq!['.'] + "cpp"@) == "C++"@,
        language_of_uri(p + seq!['.'] + "hpp"@) == "C++"@,
        language_of_uri(p + seq!['.'] + "cc"@) == "C++"@,
        language_of_uri(p + seq!['.'] + "cxx"@) == "C++"@,
        language_of_uri(p + seq!['.'] + "cs"@) == "C#"@,
        language_of_uri(p + seq!['.'] + "php"@) == "PHP"@,
        language_of_uri(p + seq!['.'] + "vue"@) == "Vue"@,
        language_of_uri(p + seq!['.'] + "svelte"@) == "Svelte"@,
        language_of_uri(p + seq!['.'] + "html"@) == "HTML"@,
        language_of_uri(p + seq!['.'] + "css"@) == "CSS"@,
        language_of_uri(p + seq!['.'] + "scss"@) == "CSS"@,
        language_of_uri(p + seq!['.'] + "less"@) == "CSS"@,
        language_of_uri(p + seq!['.'] + "json"@) == "JSON"@,
        language_of_uri(p + seq!['.'] + "md"@) == "Markdown"@,
        language_of_uri(p + seq!['.'] + "yaml"@) == "YAML"@,
        language_of_uri(p + seq!['.'] + "yml"@) == "YAML"@,
        language_of_uri(p + seq!['.'] + "toml"@) == "TOML"@,
        language_of_uri(p + seq!['.'] + "sh"@) == "Shell"@,
        language_of_uri(p + seq!['.'] + "bash"@) == "Shell"@,
        language_of_uri(p + seq!['.'] + "zsh"@) == "Shell"@,
        language_of_uri(p + seq!['.'] + "sql"@) == "SQL"@,
        language_of_uri(p + seq!['.'] + "dart"@) == "Dart"@,
        language_of_uri(p + seq!['.'] + "lua"@) == "Lua"@,
        language_of_uri(p + seq!['.'] + "elm"@) == "Elm"@,
        language_of_uri(p + seq!['.'] + "gleam"@) == "Gleam"@,
        language_of_uri(p + seq!['.'] + "clj"@) == "Clojure"@,
        language_of_uri(p + seq!['.'] + "cljs"@) == "Clojure"@,
        language_of_uri(p + seq!['.'] + "cljc"@) == "Clojure"@,
        language_of_uri(p + seq!['.'] + "ex"@) == "Elixir"@,
        language_of_uri(p + seq!['.'] + "exs"@) == "Elixir"@,
        language_of_uri(p + seq!['.'] + "erl"@) == "Erlang"@,
        language_of_uri(p + seq!['.'] + "hs"@) == "Haskell"@,
        language_of_uri(p + seq!['.'] + "nim"@) == "Nim"@,
        language_of_uri(p + seq!['.'] + "r"@) == "R"@,
        language_of_uri(p + seq!['.'] + "R"@) == "R"@,
        language_of_uri(p + seq!['.'] + "zig"@) == "Zig"@,
{
    lemma_language_table_part_0(p);
    lemma_language_table_part_1(p);
    lemma_language_table_part_2(p);
    lemma_language_table_part_3(p);
    lemma_language_table_part_4(p);
    lemma_language_table_part_5(p);
    lemma_language_table_part_6(p);
    lemma_language_table_part_7(p);
    lemma_language_table_part_8(p);
    lemma_language_table_part_9(p);
}

/// A `file://` URI and its bare path name the same file, and so the same
/// project and language.
pub proof fn lemma_file_scheme_names_path(path: Seq<char>)
    ensures
        file_path("file://"@ + path) == path,
        language_of_uri("file://"@ + path) == language_name(extension(path)),
{
    let s = "file://"@;
    assert(s.is_prefix_of(s + path));
    assert((s + path).skip(s.len() as int) == path);
}

} // verus!
