//! Executables that stage 2 needs, the shared libraries they load, and where
//! the copies go in the takeover directory.
//!
//! Which libraries an executable loads, `ldd` tells; its output is read here,
//! line by line. Running `ldd` and looking at files is left to the caller,
//! which hands the results to `ExeCopy`.
use vstd::prelude::*;

use crate::common::{
    file_name, file_name_exec, path_append, path_append_spec, path_comps, path_components, Error,
    ErrorKind,
};
use crate::text::{
    chars_eq, find_char, is_prefix, lemma_span, lines, lit_at, lit_at_exec, push_chars, push_str,
    slice_to_vec, span, span_non_ws_from, span_ws_from, split_lines, str_chars, string_from_chars,
    view_all, word_at, ws_at, is_ws, lemma_span_at, non_ws_pred, ws_pred,
};

verus! {

/// A character of the hexadecimal address that `ldd` prints: a digit, a
/// letter from `a` to `f` in either case, or a comma.
pub open spec fn hex_pred() -> spec_fn(char) -> bool {
    |c: char| ('0' <= c && c <= '9') || c == ',' || ('a' <= c && c <= 'f') || ('A' <= c && c <= 'F')
}

/// The end of `(0x<hex>)` at `i`: the index after its closing bracket.
pub open spec fn hex_paren_end(l: Seq<char>, i: int) -> Option<int> {
    let h = i + 3 + span(l.skip(i + 3), hex_pred());
    if lit_at(l, i, "(0x"@) && h > i + 3 && h < l.len() && l[h] == ')' {
        Some(h + 1)
    } else {
        None
    }
}

/// A library line of `ldd`: its name, then either `=> <path>` or nothing,
/// then the load address `(0x...)`; with the index after the address.
pub open spec fn ldd_lib(l: Seq<char>) -> Option<(Seq<char>, Option<Seq<char>>, int)> {
    let s0 = ws_at(l, 0);
    let e0 = s0 + word_at(l, s0);
    let w1 = e0 + ws_at(l, e0);
    let a = w1 + 2 + ws_at(l, w1 + 2);
    let b = a + word_at(l, a);
    let c = b + ws_at(l, b);
    if !(e0 > s0 && w1 > e0) {
        None
    } else if lit_at(l, w1, "=>"@) {
        if a > w1 + 2 && b > a && c > b && hex_paren_end(l, c) is Some {
            Some((l.subrange(s0, e0), Some(l.subrange(a, b)), hex_paren_end(l, c)->0))
        } else {
            None
        }
    } else {
        match hex_paren_end(l, w1) {
            Some(h) => Some((l.subrange(s0, e0), None, h)),
            None => None,
        }
    }
}

/// The line `<lead><name> => <path> (0x<h>)<tail>` that `ldd` prints for a
/// library it found.
pub open spec fn ldd_found_line(
    lead: Seq<char>,
    name: Seq<char>,
    path: Seq<char>,
    h: Seq<char>,
    tail: Seq<char>,
) -> Seq<char> {
    lead + name + seq![' ', '=', '>', ' '] + path + seq![' ', '(', '0', 'x'] + h + seq![')'] + tail
}

/// A line `<name> => <path> (0x<h>)`, after any indentation and whatever
/// follows it, where the name and path are single words and `h` is any
/// non-empty run of hexadecimal digits (`0`-`9`, `a`-`f`, `A`-`F`), is a
/// library line with that name and path, read to the end of the address.
pub proof fn law_ldd_found_line(
    lead: Seq<char>,
    name: Seq<char>,
    path: Seq<char>,
    h: Seq<char>,
    tail: Seq<char>,
)
    requires
        forall|i: int| 0 <= i < lead.len() ==> is_ws(#[trigger] lead[i]),
        name.len() > 0,
        forall|i: int| 0 <= i < name.len() ==> !is_ws(#[trigger] name[i]),
        path.len() > 0,
        forall|i: int| 0 <= i < path.len() ==> !is_ws(#[trigger] path[i]),
        h.len() > 0,
        forall|i: int|
            0 <= i < h.len() ==> ('0' <= #[trigger] h[i] && h[i] <= '9') || ('a' <= h[i] && h[i]
                <= 'f') || ('A' <= h[i] && h[i] <= 'F'),
    ensures
        ldd_lib(ldd_found_line(lead, name, path, h, tail)) == Some(
            (name, Some(path), (lead.len() + name.len() + path.len() + h.len() + 9) as int),
        ),
        ldd_line(ldd_found_line(lead, name, path, h, tail)) == LddLine::Lib(name, Some(path)),
{
    let l = ldd_found_line(lead, name, path, h, tail);
    let ll = lead.len() as int;
    let nn = name.len() as int;
    let pp = path.len() as int;
    let hh = h.len() as int;
    let e0 = ll + nn;
    let w1 = e0 + 1;
    let a = w1 + 3;
    let b = a + pp;
    let c = b + 1;
    assert(l.len() == ll + nn + pp + hh + 9 + tail.len());
    assert forall|j: int| 0 <= j < ll implies #[trigger] ws_pred()(l[j]) by {
        assert(l[j] == lead[j]);
    }
    assert forall|j: int| ll <= j < e0 implies #[trigger] non_ws_pred()(l[j]) by {
        assert(l[j] == name[j - ll]);
    }
    assert forall|j: int| a <= j < b implies #[trigger] non_ws_pred()(l[j]) by {
        assert(l[j] == path[j - a]);
    }
    assert forall|j: int| c + 3 <= j < c + 3 + hh implies #[trigger] hex_pred()(l[j]) by {
        assert(l[j] == h[j - c - 3]);
    }
    assert(l[ll] == name[0]);
    assert(l[e0] == ' ' && l[w1] == '=' && l[w1 + 1] == '>' && l[w1 + 2] == ' ');
    assert(l[a] == path[0]);
    assert(l[b] == ' ' && l[c] == '(' && l[c + 1] == '0' && l[c + 2] == 'x');
    assert(l[c + 3 + hh] == ')');
    lemma_span_at(l, 0, ll, ws_pred());
    lemma_span_at(l, ll, nn, non_ws_pred());
    lemma_span_at(l, e0, 1, ws_pred());
    lemma_span_at(l, w1 + 2, 1, ws_pred());
    lemma_span_at(l, a, pp, non_ws_pred());
    lemma_span_at(l, b, 1, ws_pred());
    lemma_span_at(l, c + 3, hh, hex_pred());
    reveal_strlit("=>");
    reveal_strlit("(0x");
    assert(l.subrange(w1, w1 + 2) =~= "=>"@);
    assert(l.subrange(c, c + 3) =~= "(0x"@);
    assert(l.subrange(ll, e0) =~= name);
    assert(l.subrange(a, b) =~= path);
}

/// What a line of `ldd`'s output says.
pub enum LddLine {
    /// A library: its name and, where `ldd` found it, its path.
    Lib(Seq<char>, Option<Seq<char>>),
    /// The file is statically linked.
    Static,
    /// Something else.
    NoMatch,
}

pub open spec fn ends_with(s: Seq<char>, t: Seq<char>) -> bool {
    t.len() <= s.len() && s.skip(s.len() - t.len()) == t
}

/// A library line (the text after its address does not matter), else a line
/// ending in `statically linked`.
pub open spec fn ldd_line(l: Seq<char>) -> LddLine {
    match ldd_lib(l) {
        Some((n, p, _)) => LddLine::Lib(n, p),
        None => if ends_with(l, "statically linked"@) {
            LddLine::Static
        } else {
            LddLine::NoMatch
        },
    }
}

fn hex_span_from(l: &[char], from: usize) -> (e: usize)
    requires
        from <= l@.len(),
    ensures
        from <= e <= l@.len(),
        e - from == span(l@.skip(from as int), hex_pred()),
{
    let mut e: usize = from;
    while e < l.len() && (('0' <= l[e] && l[e] <= '9') || l[e] == ',' || ('a' <= l[e] && l[e]
        <= 'f') || ('A' <= l[e] && l[e] <= 'F'))
        invariant
            from <= e <= l@.len(),
            forall|i: int| from <= i < e ==> #[trigger] hex_pred()(l@[i]),
        decreases l@.len() - e,
    {
        e = e + 1;
    }
    proof {
        let t = l@.skip(from as int);
        assert forall|i: int| 0 <= i < e - from implies #[trigger] hex_pred()(t[i]) by {
            assert(t[i] == l@[from + i]);
        }
        crate::text::lemma_span_unique(t, hex_pred(), e - from);
    }
    e
}

fn hex_paren_end_exec(l: &[char], i: usize) -> (r: Option<usize>)
    requires
        i <= l@.len(),
    ensures
        r matches Some(h) ==> hex_paren_end(l@, i as int) == Some(h as int),
        r is None ==> hex_paren_end(l@, i as int) is None,
{
    proof {
        reveal_strlit("(0x");
    }
    if !lit_at_exec(l, i, "(0x") {
        return None;
    }
    let n = l.len();
    assert(i + 3 <= n);
    let h = hex_span_from(l, i + 3);
    if h > i + 3 && h < l.len() && l[h] == ')' {
        Some(h + 1)
    } else {
        None
    }
}

/// Read a library line of `ldd` (see `ldd_lib`).
pub fn ldd_lib_exec(l: &[char]) -> (r: Option<(Vec<char>, Option<Vec<char>>, usize)>)
    ensures
        match ldd_lib(l@) {
            Some((n, p, h)) => r matches Some((n2, p2, h2)) && n2@ == n && h2 == h && match p {
                Some(x) => p2 matches Some(y) && y@ == x,
                None => p2 is None,
            },
            None => r is None,
        },
{
    proof {
        assert(l@.skip(0) =~= l@);
        reveal_strlit("=>");
    }
    let s0 = span_ws_from(l, 0);
    let e0 = span_non_ws_from(l, s0);
    let w1 = span_ws_from(l, e0);
    if !(e0 > s0 && w1 > e0) {
        return None;
    }
    if lit_at_exec(l, w1, "=>") {
        let n = l.len();
        assert(w1 + 2 <= n);
        let a = span_ws_from(l, w1 + 2);
        let b = span_non_ws_from(l, a);
        let c = span_ws_from(l, b);
        if a > w1 + 2 && b > a && c > b {
            match hex_paren_end_exec(l, c) {
                Some(h) => {
                    assert(ldd_lib(l@) == Some((l@.subrange(s0 as int, e0 as int), Some(l@.subrange(a as int, b as int)), h as int)));
                    return Some((slice_to_vec(l, s0, e0), Some(slice_to_vec(l, a, b)), h));
                },
                None => {
                    assert(ldd_lib(l@) is None);
                    return None;
                },
            }
        }
        assert(ldd_lib(l@) is None);
        None
    } else {
        match hex_paren_end_exec(l, w1) {
            Some(h) => {
                assert(ldd_lib(l@) == Some((l@.subrange(s0 as int, e0 as int), None::<Seq<char>>, h as int)));
                Some((slice_to_vec(l, s0, e0), None, h))
            },
            None => {
                assert(ldd_lib(l@) is None);
                None
            },
        }
    }
}

/// Whether `l` is the absolute path of a file whose existence decides; a
/// library given by name only counts where its name is such a path.
pub open spec fn is_absolute(p: Seq<char>) -> bool {
    p.len() > 0 && p[0] == '/'
}

/// A library to check: its path, and whether it counts only where that file
/// exists (a library that `ldd` named by an absolute path without `=>`).
#[derive(Debug)]
pub struct LibCandidate {
    pub path: String,
    pub must_exist: bool,
}

pub struct CandModel {
    pub path: Seq<char>,
    pub must_exist: bool,
}

pub open spec fn cands_view(v: Seq<LibCandidate>) -> Seq<CandModel> {
    v.map_values(|c: LibCandidate| CandModel { path: c.path@, must_exist: c.must_exist })
}

pub open spec fn strs_view(v: Seq<String>) -> Seq<Seq<char>> {
    v.map_values(|s: String| s@)
}

/// The libraries that the `ldd` lines `ls` name and `files` does not hold
/// yet, in order: a found path as it stands, a bare name where it is an
/// absolute path (then only where the file exists).
pub open spec fn lib_cands(ls: Seq<Seq<char>>, files: Seq<Seq<char>>) -> Seq<CandModel>
    decreases ls.len(),
{
    if ls.len() == 0 {
        seq![]
    } else {
        let rest = lib_cands(ls.drop_last(), files);
        match ldd_line(ls.last()) {
            LddLine::Lib(n, Some(p)) => if !files.contains(p) {
                rest.push(CandModel { path: p, must_exist: false })
            } else {
                rest
            },
            LddLine::Lib(n, None) => if !files.contains(n) && is_absolute(n) {
                rest.push(CandModel { path: n, must_exist: true })
            } else {
                rest
            },
            _ => rest,
        }
    }
}

/// The library that `ldd` found for an executable (see `law_ldd_found_line`)
/// is a candidate to copy, at its path, unless it is held already.
pub proof fn law_found_library_is_candidate(
    lead: Seq<char>,
    name: Seq<char>,
    path: Seq<char>,
    h: Seq<char>,
    tail: Seq<char>,
    files: Seq<Seq<char>>,
)
    requires
        forall|i: int| 0 <= i < lead.len() ==> is_ws(#[trigger] lead[i]),
        name.len() > 0,
        forall|i: int| 0 <= i < name.len() ==> !is_ws(#[trigger] name[i]),
        path.len() > 0,
        forall|i: int| 0 <= i < path.len() ==> !is_ws(#[trigger] path[i]),
        h.len() > 0,
        forall|i: int|
            0 <= i < h.len() ==> ('0' <= #[trigger] h[i] && h[i] <= '9') || ('a' <= h[i] && h[i]
                <= 'f') || ('A' <= h[i] && h[i] <= 'F'),
    ensures
        lib_cands(seq![ldd_found_line(lead, name, path, h, tail)], files) == (if files.contains(
            path,
        ) {
            Seq::<CandModel>::empty()
        } else {
            seq![CandModel { path: path, must_exist: false }]
        }),
{
    law_ldd_found_line(lead, name, path, h, tail);
    let ls = seq![ldd_found_line(lead, name, path, h, tail)];
    assert(ls.drop_last() =~= Seq::<Seq<char>>::empty());
    assert(lib_cands(ls.drop_last(), files) == Seq::<CandModel>::empty());
    assert(ls.last() == ldd_found_line(lead, name, path, h, tail));
    if !files.contains(path) {
        assert(Seq::<CandModel>::empty().push(CandModel { path: path, must_exist: false })
            =~= seq![CandModel { path: path, must_exist: false }]);
    }
}

/// Where a file is copied to under `takeover_dir`: the directory below it
/// that its parent's components name, and the file's name there.
pub open spec fn parent_of(p: Seq<char>) -> Option<Seq<char>> {
    let c = path_comps(p);
    if c.len() > 0 && c.last() != seq!['/'] {
        Some(render_comps(c.drop_last()))
    } else {
        None
    }
}

/// Components joined into a path, the root first where there is one.
pub open spec fn render_comps(c: Seq<Seq<char>>) -> Seq<char> {
    if c.len() > 0 && c[0] == seq!['/'] {
        seq!['/'] + join_comps(c.drop_first())
    } else {
        join_comps(c)
    }
}

pub open spec fn join_comps(c: Seq<Seq<char>>) -> Seq<char>
    decreases c.len(),
{
    if c.len() == 0 {
        seq![]
    } else if c.len() == 1 {
        c[0]
    } else {
        join_comps(c.drop_last()) + seq!['/'] + c.last()
    }
}

pub open spec fn dest_dir_of(takeover_dir: Seq<char>, p: Seq<char>) -> Seq<char> {
    match parent_of(p) {
        Some(q) => path_append_spec(takeover_dir, q),
        None => takeover_dir,
    }
}

/// A copy to make: from `src`, into the directory `dest_dir` (to be created
/// where missing), as `dest_path`.
#[derive(Debug)]
pub struct FileCopy {
    pub src: String,
    pub dest_dir: String,
    pub dest_path: String,
}

pub open spec fn copy_ok(c: FileCopy, takeover_dir: Seq<char>) -> bool {
    &&& c.dest_dir@ == dest_dir_of(takeover_dir, c.src@)
    &&& file_name(c.src@) matches Some(n) && c.dest_path@ == path_append_spec(c.dest_dir@, n)
}

fn join_comps_exec(c: &Vec<Vec<char>>, from: usize, to: usize) -> (r: Vec<char>)
    requires
        from <= to <= c@.len(),
    ensures
        r@ == join_comps(view_all(c@).subrange(from as int, to as int)),
{
    let mut r: Vec<char> = Vec::new();
    let mut i: usize = from;
    proof {
        assert(view_all(c@).subrange(from as int, from as int) =~= Seq::<Seq<char>>::empty());
    }
    while i < to
        invariant
            from <= i <= to <= c@.len(),
            r@ == join_comps(view_all(c@).subrange(from as int, i as int)),
        decreases to - i,
    {
        let ghost s = view_all(c@).subrange(from as int, i + 1);
        proof {
            assert(s.drop_last() =~= view_all(c@).subrange(from as int, i as int));
            assert(s.last() == c@[i as int]@);
        }
        if i > from {
            r.push('/');
        }
        push_chars(&mut r, c[i].as_slice());
        proof {
            if i == from {
                assert(s.len() == 1);
                assert(r@ =~= s[0]);
            }
        }
        i = i + 1;
    }
    r
}

/// The parent of a path (see `parent_of`).
pub fn parent_exec(src: &str) -> (r: Option<String>)
    ensures
        match parent_of(src@) {
            Some(q) => r matches Some(s) && s@ == q,
            None => r is None,
        },
{
    let sc = str_chars(src);
    let comps = path_components(sc.as_slice());
    let ghost c = view_all(comps@);
    let mut slash: Vec<char> = Vec::new();
    slash.push('/');
    assert(slash@ =~= seq!['/']);
    let has_parent = comps.len() > 0 && !chars_eq(comps[comps.len() - 1].as_slice(), slash.as_slice());
    proof {
        if comps@.len() > 0 {
            assert(c.last() == comps@[comps@.len() - 1]@);
        }
        assert(has_parent == (c.len() > 0 && c.last() != seq!['/']));
    }
    if !has_parent {
        return None;
    }
    let n = comps.len() - 1;
    let ghost d = c.drop_last();
    let rooted = n > 0 && chars_eq(comps[0].as_slice(), slash.as_slice());
    proof {
        if n > 0 {
            assert(d[0] == comps@[0]@);
        }
        assert(rooted == (d.len() > 0 && d[0] == seq!['/']));
    }
    let parent = if rooted {
        let mut p: Vec<char> = Vec::new();
        p.push('/');
        let j = join_comps_exec(&comps, 1, n);
        push_chars(&mut p, j.as_slice());
        proof {
            assert(d.drop_first() =~= c.subrange(1, n as int));
            assert(p@ =~= seq!['/'] + join_comps(d.drop_first()));
        }
        p
    } else {
        let j = join_comps_exec(&comps, 0, n);
        proof {
            assert(c.subrange(0, n as int) =~= d);
        }
        j
    };
    proof {
        assert(parent@ == render_comps(d));
    }
    Some(string_from_chars(parent.as_slice()))
}

/// The copy of `src` under `takeover_dir` (see `copy_ok`); an `InvState`
/// error where `src` has no file name.
pub fn copy_target(takeover_dir: &str, src: &str) -> (r: Result<FileCopy, Error>)
    ensures
        match file_name(src@) {
            Some(_) => r matches Ok(c) && c.src@ == src@ && copy_ok(c, takeover_dir@),
            None => r matches Err(e) && e.kind == ErrorKind::InvState,
        },
{
    let dest_dir = match parent_exec(src) {
        Some(p) => path_append(takeover_dir, p.as_str()),
        None => string_from_chars(str_chars(takeover_dir).as_slice()),
    };
    let sc = str_chars(src);
    match file_name_exec(sc.as_slice()) {
        Some(n) => {
            let ns = string_from_chars(n.as_slice());
            let dest_path = path_append(dest_dir.as_str(), ns.as_str());
            Ok(FileCopy { src: string_from_chars(sc.as_slice()), dest_dir, dest_path })
        },
        None => Err(Error::with_context(ErrorKind::InvState, "Failed to extract file name from path")),
    }
}

/// The executables to copy by command, the libraries found for them, and
/// the space they take.
#[derive(Debug)]
pub struct ExeCopy {
    pub req_space: u64,
    pub files: Vec<String>,
    pub exe_path: Vec<(String, String)>,
}

/// The sum of the sizes.
pub open spec fn sizes_sum(s: Seq<u64>) -> int
    decreases s.len(),
{
    if s.len() == 0 {
        0
    } else {
        sizes_sum(s.drop_last()) + s.last()
    }
}

/// The commands and their paths, as text.
pub open spec fn exe_view(v: Seq<(String, String)>) -> Seq<(Seq<char>, Seq<char>)> {
    v.map_values(|e: (String, String)| (e.0@, e.1@))
}

/// The commands and what looking each one up gave, as text.
pub open spec fn lookups_view(v: Seq<(String, Option<String>)>) -> Seq<(Seq<char>, Option<Seq<char>>)> {
    v.map_values(
        |e: (String, Option<String>)|
            (
                e.0@,
                match e.1 {
                    Some(p) => Some(p@),
                    None => None,
                },
            ),
    )
}

/// The first entry from `i` on that holds the command `k`.
pub open spec fn find_name(es: Seq<(Seq<char>, Seq<char>)>, k: Seq<char>, i: int) -> Option<int>
    decreases es.len() - i,
{
    if i < 0 || i >= es.len() {
        None
    } else if es[i].0 == k {
        Some(i)
    } else {
        find_name(es, k, i + 1)
    }
}

pub proof fn lemma_find_name(es: Seq<(Seq<char>, Seq<char>)>, k: Seq<char>, i: int)
    requires
        0 <= i,
    ensures
        find_name(es, k, i) matches Some(j) ==> i <= j < es.len() && es[j].0 == k,
        find_name(es, k, i) is None ==> forall|j: int| i <= j < es.len() ==> es[j].0 != k,
    decreases es.len() - i,
{
    if i < es.len() && es[i].0 != k {
        lemma_find_name(es, k, i + 1);
    }
}

/// A command entered in the map by name: an entry that holds it gets the new
/// path in its place, else the command is added at the end.
pub open spec fn exe_insert(es: Seq<(Seq<char>, Seq<char>)>, k: Seq<char>, p: Seq<char>) -> Seq<
    (Seq<char>, Seq<char>),
> {
    match find_name(es, k, 0) {
        Some(i) => es.update(i, (k, p)),
        None => es.push((k, p)),
    }
}

/// The commands by name with their paths, where every command was found;
/// `None` where one was not.
pub open spec fn lookups_spec(ls: Seq<(Seq<char>, Option<Seq<char>>)>) -> Option<
    Seq<(Seq<char>, Seq<char>)>,
>
    decreases ls.len(),
{
    if ls.len() == 0 {
        Some(Seq::empty())
    } else {
        match lookups_spec(ls.drop_last()) {
            None => None,
            Some(es) => match ls.last().1 {
                None => None,
                Some(p) => Some(exe_insert(es, ls.last().0, p)),
            },
        }
    }
}

/// Once a lookup failed, every longer run of lookups fails too.
pub proof fn lemma_lookups_none_stays(ls: Seq<(Seq<char>, Option<Seq<char>>)>, n: int)
    requires
        0 <= n <= ls.len(),
        lookups_spec(ls.take(n)) is None,
    ensures
        lookups_spec(ls) is None,
    decreases ls.len() - n,
{
    if n < ls.len() {
        assert(ls.take(n + 1).drop_last() =~= ls.take(n));
        lemma_lookups_none_stays(ls, n + 1);
    } else {
        assert(ls.take(n) =~= ls);
    }
}

/// No command is held twice.
pub open spec fn names_distinct(es: Seq<(Seq<char>, Seq<char>)>) -> bool {
    forall|i: int, j: int| 0 <= i < j < es.len() ==> es[i].0 != es[j].0
}

pub proof fn lemma_exe_insert_distinct(es: Seq<(Seq<char>, Seq<char>)>, k: Seq<char>, p: Seq<char>)
    requires
        names_distinct(es),
    ensures
        names_distinct(exe_insert(es, k, p)),
        exe_insert(es, k, p).len() <= es.len() + 1,
{
    lemma_find_name(es, k, 0);
}

/// Every command of a lookup that succeeded throughout is held, with the path
/// of its last lookup, and each command once.
pub proof fn lemma_lookups_distinct(ls: Seq<(Seq<char>, Option<Seq<char>>)>)
    ensures
        lookups_spec(ls) matches Some(es) ==> names_distinct(es) && es.len() <= ls.len(),
    decreases ls.len(),
{
    if ls.len() > 0 {
        lemma_lookups_distinct(ls.drop_last());
        if let Some(es) = lookups_spec(ls.drop_last()) {
            if let Some(p) = ls.last().1 {
                lemma_exe_insert_distinct(es, ls.last().0, p);
            }
        }
    }
}

impl ExeCopy {
    /// The commands, each with what looking it up gave: by name, with its
    /// path, where every one was found (see `lookups_spec`), no libraries yet;
    /// a `FileNotFound` error where one could not be located.
    pub fn new(lookups: Vec<(String, Option<String>)>) -> (r: Result<ExeCopy, Error>)
        ensures
            match lookups_spec(lookups_view(lookups@)) {
                None => r matches Err(e) && e.kind == ErrorKind::FileNotFound,
                Some(es) => r matches Ok(x) && x.req_space == 0 && x.files@.len() == 0 && exe_view(
                    x.exe_path@,
                ) == es && names_distinct(es),
            },
    {
        let ghost lv = lookups_view(lookups@);
        let mut exe_path: Vec<(String, String)> = Vec::new();
        let mut i: usize = 0;
        proof {
            assert(lv.take(0) =~= Seq::<(Seq<char>, Option<Seq<char>>)>::empty());
            assert(exe_view(exe_path@) =~= Seq::<(Seq<char>, Seq<char>)>::empty());
        }
        while i < lookups.len()
            invariant
                i <= lookups@.len(),
                lv == lookups_view(lookups@),
                lookups_spec(lv.take(i as int)) == Some(exe_view(exe_path@)),
            decreases lookups@.len() - i,
        {
            proof {
                assert(lv.take(i + 1).drop_last() =~= lv.take(i as int));
                assert(lv.take(i + 1).last() == lv[i as int]);
            }
            let name = &lookups[i].0;
            match &lookups[i].1 {
                None => {
                    proof {
                        lemma_lookups_none_stays(lv, i + 1);
                    }
                    return Err(
                        Error::with_context(ErrorKind::FileNotFound, "Command could not be located"),
                    );
                },
                Some(path) => {
                    let ghost es = exe_view(exe_path@);
                    let nc = str_chars(name.as_str());
                    let mut j: usize = 0;
                    let mut found: Option<usize> = None;
                    while j < exe_path.len() && found.is_none()
                        invariant
                            j <= exe_path@.len(),
                            es == exe_view(exe_path@),
                            nc@ == name@,
                            found matches Some(f) ==> find_name(es, name@, 0) == Some(f as int),
                            found is None ==> find_name(es, name@, j as int) == find_name(
                                es,
                                name@,
                                0,
                            ),
                        decreases exe_path@.len() - j + (if found is None {
                            1int
                        } else {
                            0int
                        }),
                    {
                        let kc = str_chars(exe_path[j].0.as_str());
                        proof {
                            assert(es[j as int].0 == exe_path@[j as int].0@);
                        }
                        if chars_eq(kc.as_slice(), nc.as_slice()) {
                            found = Some(j);
                        } else {
                            j = j + 1;
                        }
                    }
                    proof {
                        lemma_find_name(es, name@, 0);
                        if found is None {
                            assert(find_name(es, name@, j as int) is None);
                        }
                    }
                    let entry = (name.clone(), path.clone());
                    match found {
                        Some(f) => {
                            exe_path.set(f, entry);
                            proof {
                                assert(exe_view(exe_path@) =~= es.update(f as int, (name@, path@)));
                            }
                        },
                        None => {
                            exe_path.push(entry);
                            proof {
                                assert(exe_view(exe_path@) =~= es.push((name@, path@)));
                            }
                        },
                    }
                },
            }
            i = i + 1;
        }
        proof {
            assert(lv.take(lookups@.len() as int) =~= lv);
            lemma_lookups_distinct(lv);
        }
        Ok(ExeCopy { req_space: 0, files: Vec::new(), exe_path })
    }

    pub fn get_req_space(&self) -> (r: u64)
        ensures
            r == self.req_space,
    {
        self.req_space
    }

    pub fn get_exec_paths(self) -> (r: Vec<(String, String)>)
        ensures
            r == self.exe_path,
    {
        self.exe_path
    }

    /// Add a library of `size` bytes; whether it was new. A library already
    /// held changes nothing.
    pub fn add_lib(&mut self, lib_path: &str, size: u64) -> (r: bool)
        requires
            old(self).req_space + size <= u64::MAX,
        ensures
            r == !strs_view(old(self).files@).contains(lib_path@),
            r ==> strs_view(final(self).files@) == strs_view(old(self).files@).push(lib_path@)
                && final(self).req_space == old(self).req_space + size,
            !r ==> final(self).files == old(self).files && final(self).req_space == old(
                self,
            ).req_space,
            final(self).exe_path == old(self).exe_path,
    {
        if contains_str(&self.files, lib_path) {
            return false;
        }
        let ghost before = strs_view(self.files@);
        self.files.push(string_from_chars(str_chars(lib_path).as_slice()));
        proof {
            assert(strs_view(self.files@) =~= before.push(lib_path@));
        }
        self.req_space = self.req_space + size;
        true
    }

    /// The libraries of an `ldd` output that are not held yet (see
    /// `lib_cands`).
    pub fn get_libs(&self, ldd_output: &str) -> (r: Vec<LibCandidate>)
        ensures
            cands_view(r@) == lib_cands(lines(ldd_output@), strs_view(self.files@)),
    {
        let text = str_chars(ldd_output);
        let ls = split_lines(text.as_slice());
        let ghost all = view_all(ls@);
        let mut r: Vec<LibCandidate> = Vec::new();
        let mut i: usize = 0;
        proof {
            assert(all.take(0) =~= Seq::<Seq<char>>::empty());
            assert(cands_view(r@) =~= Seq::<CandModel>::empty());
        }
        while i < ls.len()
            invariant
                i <= ls@.len(),
                all == view_all(ls@),
                all == lines(ldd_output@),
                cands_view(r@) == lib_cands(all.take(i as int), strs_view(self.files@)),
            decreases ls@.len() - i,
        {
            let l = ls[i].as_slice();
            proof {
                assert(all.take(i + 1).drop_last() =~= all.take(i as int));
                assert(all.take(i + 1).last() == l@);
            }
            let ghost before = cands_view(r@);
            match ldd_lib_exec(l) {
                Some((n, Some(p), _)) => {
                    let ps = string_from_chars(p.as_slice());
                    if !contains_str(&self.files, ps.as_str()) {
                        r.push(LibCandidate { path: ps, must_exist: false });
                        proof {
                            assert(cands_view(r@) =~= before.push(CandModel { path: p@, must_exist: false }));
                        }
                    }
                },
                Some((n, None, _)) => {
                    let ns = string_from_chars(n.as_slice());
                    if !contains_str(&self.files, ns.as_str()) && n.len() > 0 && n[0] == '/' {
                        r.push(LibCandidate { path: ns, must_exist: true });
                        proof {
                            assert(cands_view(r@) =~= before.push(CandModel { path: n@, must_exist: true }));
                        }
                    }
                },
                None => {},
            }
            i = i + 1;
        }
        proof {
            assert(all.take(ls@.len() as int) =~= all);
        }
        r
    }

    /// The copies to make under `takeover_dir`: the executables, then the
    /// libraries (see `copy_target`); an `InvState` error where a path has no
    /// file name.
    pub fn copy_files(&self, takeover_dir: &str) -> (r: Result<Vec<FileCopy>, Error>)
        ensures
            r matches Ok(v) ==> v@.len() == self.exe_path@.len() + self.files@.len() && (forall|
                i: int,
            | 0 <= i < v@.len() ==> copy_ok(#[trigger] v@[i], takeover_dir@)) && (forall|i: int|
                0 <= i < self.exe_path@.len() ==> v@[i].src@ == #[trigger] self.exe_path@[i].1@)
                && (forall|i: int|
                0 <= i < self.files@.len() ==> v@[self.exe_path@.len() + i].src@
                    == #[trigger] self.files@[i]@),
            r is Err ==> (exists|i: int|
                0 <= i < self.exe_path@.len() && file_name(#[trigger] self.exe_path@[i].1@) is None)
                || (exists|i: int|
                0 <= i < self.files@.len() && file_name(#[trigger] self.files@[i]@) is None),
            (forall|i: int|
                0 <= i < self.exe_path@.len() ==> file_name(#[trigger] self.exe_path@[i].1@) is Some)
                && (forall|i: int|
                0 <= i < self.files@.len() ==> file_name(#[trigger] self.files@[i]@) is Some)
                ==> r is Ok,
    {
        let mut v: Vec<FileCopy> = Vec::new();
        let mut i: usize = 0;
        while i < self.exe_path.len()
            invariant
                i <= self.exe_path@.len(),
                v@.len() == i,
                forall|k: int| 0 <= k < i ==> copy_ok(#[trigger] v@[k], takeover_dir@),
                forall|k: int| 0 <= k < i ==> v@[k].src@ == #[trigger] self.exe_path@[k].1@,
                forall|k: int| 0 <= k < i ==> file_name(#[trigger] self.exe_path@[k].1@) is Some,
            decreases self.exe_path@.len() - i,
        {
            let c = copy_target(takeover_dir, self.exe_path[i].1.as_str())?;
            v.push(c);
            i = i + 1;
        }
        let mut j: usize = 0;
        let n = self.exe_path.len();
        while j < self.files.len()
            invariant
                j <= self.files@.len(),
                n == self.exe_path@.len(),
                v@.len() == n + j,
                forall|k: int| 0 <= k < n + j ==> copy_ok(#[trigger] v@[k], takeover_dir@),
                forall|k: int| 0 <= k < n ==> v@[k].src@ == #[trigger] self.exe_path@[k].1@,
                forall|k: int| 0 <= k < j ==> v@[n + k].src@ == #[trigger] self.files@[k]@,
                forall|k: int| 0 <= k < n ==> file_name(#[trigger] self.exe_path@[k].1@) is Some,
                forall|k: int| 0 <= k < j ==> file_name(#[trigger] self.files@[k]@) is Some,
            decreases self.files@.len() - j,
        {
            let c = copy_target(takeover_dir, self.files[j].as_str())?;
            v.push(c);
            j = j + 1;
        }
        Ok(v)
    }
}

/// Whether `v` holds `s`.
pub fn contains_str(v: &Vec<String>, s: &str) -> (r: bool)
    ensures
        r == strs_view(v@).contains(s@),
{
    let sc = str_chars(s);
    let mut i: usize = 0;
    while i < v.len()
        invariant
            i <= v@.len(),
            sc@ == s@,
            forall|j: int| 0 <= j < i ==> strs_view(v@)[j] != s@,
        decreases v@.len() - i,
    {
        let c = str_chars(v[i].as_str());
        proof {
            assert(strs_view(v@)[i as int] == v@[i as int]@);
        }
        if chars_eq(c.as_slice(), sc.as_slice()) {
            return true;
        }
        i = i + 1;
    }
    proof {
        if strs_view(v@).contains(s@) {
            let j = choose|j: int| 0 <= j < strs_view(v@).len() && strs_view(v@)[j] == s@;
            assert(strs_view(v@)[j] != s@);
        }
    }
    false
}

/// The walk over the executables and the libraries they load, transitively:
/// the files whose libraries are still to be read. A library joins it only
/// when it is first added to the copies, so each file is read once, and the
/// walk ends once no file adds a library that is not held yet.
#[derive(Debug)]
pub struct LibWalk {
    pub todo: Vec<String>,
}

impl LibWalk {
    /// The walk starts with the executables.
    pub fn new(copy: &ExeCopy) -> (r: LibWalk)
        ensures
            strs_view(r.todo@) == exe_view(copy.exe_path@).map_values(
                |e: (Seq<char>, Seq<char>)| e.1,
            ),
    {
        let mut todo: Vec<String> = Vec::new();
        let mut i: usize = 0;
        while i < copy.exe_path.len()
            invariant
                i <= copy.exe_path@.len(),
                strs_view(todo@) == exe_view(copy.exe_path@).map_values(
                    |e: (Seq<char>, Seq<char>)| e.1,
                ).take(i as int),
            decreases copy.exe_path@.len() - i,
        {
            let ghost before = strs_view(todo@);
            todo.push(copy.exe_path[i].1.clone());
            proof {
                assert(exe_view(copy.exe_path@).map_values(|e: (Seq<char>, Seq<char>)| e.1).take(
                    i + 1,
                ) =~= exe_view(copy.exe_path@).map_values(|e: (Seq<char>, Seq<char>)| e.1).take(
                    i as int,
                ).push(copy.exe_path@[i as int].1@));
                assert(strs_view(todo@) =~= before.push(copy.exe_path@[i as int].1@));
            }
            i = i + 1;
        }
        proof {
            assert(exe_view(copy.exe_path@).map_values(|e: (Seq<char>, Seq<char>)| e.1).take(
                copy.exe_path@.len() as int,
            ) =~= exe_view(copy.exe_path@).map_values(|e: (Seq<char>, Seq<char>)| e.1));
        }
        LibWalk { todo }
    }

    /// The next file whose libraries are to be read, the latest to join;
    /// `None` once the walk is done.
    pub fn next_file(&mut self) -> (r: Option<String>)
        ensures
            old(self).todo@.len() == 0 ==> r is None && final(self).todo@ == old(self).todo@,
            old(self).todo@.len() > 0 ==> r == Some(old(self).todo@.last())
                && final(self).todo@ == old(self).todo@.drop_last(),
    {
        self.todo.pop()
    }

    /// A library that a file loads, of `size` bytes: where it is not held
    /// yet, it is added to the copies and joins the walk; whether it did.
    pub fn take_lib(&mut self, copy: &mut ExeCopy, lib_path: &str, size: u64) -> (r: bool)
        requires
            old(copy).req_space + size <= u64::MAX,
        ensures
            r == !strs_view(old(copy).files@).contains(lib_path@),
            r ==> strs_view(final(copy).files@) == strs_view(old(copy).files@).push(lib_path@)
                && final(copy).req_space == old(copy).req_space + size
                && strs_view(final(self).todo@) == strs_view(old(self).todo@).push(lib_path@),
            !r ==> final(copy).files == old(copy).files
                && final(copy).req_space == old(copy).req_space
                && final(self).todo == old(self).todo,
            final(copy).exe_path == old(copy).exe_path,
    {
        let added = copy.add_lib(lib_path, size);
        if added {
            let ghost before = strs_view(self.todo@);
            self.todo.push(string_from_chars(str_chars(lib_path).as_slice()));
            proof {
                assert(strs_view(self.todo@) =~= before.push(lib_path@));
            }
        }
        added
    }
}

} // verus!
