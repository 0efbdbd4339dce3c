//! Helpers shared by the stages: sizes, paths, mount tables and command output.
use vstd::prelude::*;
use vstd::string::StringSliceAdditionalSpecFns;

use crate::common::loop_device::{lemma_nul_index, nul_index, nul_index_exec};
use crate::text::{
    hex, hex2, u64_to_hex, u64_to_hex2,
    chars_eq, decimal, find_char, find_char_from, is_prefix, lemma_span, lines, not_char_pred,
    parse_u32, parse_u32_spec, push_chars, push_str, slice_to_vec, split_lines, split_ws,
    starts_with, str_chars, string_from_chars, u64_to_decimal, view_all, words,
};

pub mod defs;
pub mod error;
pub mod logging;
pub mod loop_device;
pub mod options;
pub mod stage2_config;

pub use error::{Error, ErrorKind};
pub use options::Options;

verus! {

pub const GIB_SIZE: u64 = 1024 * 1024 * 1024;
pub const MIB_SIZE: u64 = 1024 * 1024;
pub const KIB_SIZE: u64 = 1024;

/// The size in the largest unit of which it holds more than ten, rounded down.
pub open spec fn format_size_spec(size: nat) -> Seq<char> {
    if size > 10 * GIB_SIZE {
        decimal(size / GIB_SIZE as nat) + " GiB"@
    } else if size > 10 * MIB_SIZE {
        decimal(size / MIB_SIZE as nat) + " MiB"@
    } else if size > 10 * KIB_SIZE {
        decimal(size / KIB_SIZE as nat) + " KiB"@
    } else {
        decimal(size) + " B"@
    }
}

/// Human readable size: `12 GiB`, `11 MiB`, `20 KiB` or `512 B`.
pub fn format_size_with_unit(size: u64) -> (r: String)
    ensures
        r@ == format_size_spec(size as nat),
{
    let mut v: Vec<char>;
    if size > 10 * GIB_SIZE {
        v = u64_to_decimal(size / GIB_SIZE);
        push_str(&mut v, " GiB");
    } else if size > 10 * MIB_SIZE {
        v = u64_to_decimal(size / MIB_SIZE);
        push_str(&mut v, " MiB");
    } else if size > 10 * KIB_SIZE {
        v = u64_to_decimal(size / KIB_SIZE);
        push_str(&mut v, " KiB");
    } else {
        v = u64_to_decimal(size);
        push_str(&mut v, " B");
    }
    string_from_chars(v.as_slice())
}

// ---------------------------------------------------------------------------
// Paths
// ---------------------------------------------------------------------------

/// `PathBuf::push`: an absolute `p` replaces `base`; otherwise `p` is appended,
/// with a `/` in between unless `base` is empty or already ends in one.
pub open spec fn push_path(base: Seq<char>, p: Seq<char>) -> Seq<char> {
    if p.len() > 0 && p[0] == '/' {
        p
    } else if base.len() == 0 || base.last() == '/' {
        base + p
    } else {
        base + seq!['/'] + p
    }
}

/// The components of a path after its root, as `Path::components` yields them:
/// separators collapse and `.` components vanish.
pub open spec fn segments(p: Seq<char>) -> Seq<Seq<char>>
    decreases p.len(),
{
    if p.len() == 0 {
        seq![]
    } else if p[0] == '/' {
        segments(p.drop_first())
    } else {
        let k = find_char(p, '/');
        proof {
            lemma_span(p, not_char_pred('/'));
        }
        let seg = p.take(k as int);
        (if seg == seq!['.'] {
            seq![]
        } else {
            seq![seg]
        }) + segments(p.skip(k as int))
    }
}

pub open spec fn push_all(base: Seq<char>, segs: Seq<Seq<char>>) -> Seq<char>
    decreases segs.len(),
{
    if segs.len() == 0 {
        base
    } else {
        push_all(push_path(base, segs[0]), segs.drop_first())
    }
}

/// `append` placed below `base`: an absolute `append` has its root dropped and
/// its components joined to `base` one by one.
pub open spec fn path_append_spec(base: Seq<char>, append: Seq<char>) -> Seq<char> {
    if append.len() > 0 && append[0] == '/' {
        push_all(base, segments(append))
    } else {
        push_path(base, append)
    }
}

fn push_path_exec(base: &mut Vec<char>, p: &[char])
    ensures
        final(base)@ == push_path(old(base)@, p@),
{
    if p.len() > 0 && p[0] == '/' {
        base.clear();
        push_chars(base, p);
        assert(base@ =~= p@);
    } else if base.len() == 0 || base[base.len() - 1] == '/' {
        push_chars(base, p);
    } else {
        base.push('/');
        push_chars(base, p);
    }
}

proof fn lemma_segments_slash(p: Seq<char>, i: int)
    requires
        0 <= i < p.len(),
        p[i] == '/',
    ensures
        segments(p.skip(i)) == segments(p.skip(i + 1)),
{
    assert(p.skip(i)[0] == '/');
    assert(p.skip(i).drop_first() =~= p.skip(i + 1));
}

proof fn lemma_segments_seg(p: Seq<char>, i: int, j: int)
    requires
        0 <= i < j <= p.len(),
        p[i] != '/',
        j - i == find_char(p.skip(i), '/'),
    ensures
        segments(p.skip(i)) == (if p.subrange(i, j) == seq!['.'] {
            seq![]
        } else {
            seq![p.subrange(i, j)]
        }) + segments(p.skip(j)),
{
    let t = p.skip(i);
    assert(t[0] == p[i]);
    assert(t.take(j - i) =~= p.subrange(i, j));
    assert(t.skip(j - i) =~= p.skip(j));
}

proof fn lemma_push_all_append(base: Seq<char>, a: Seq<Seq<char>>, b: Seq<Seq<char>>)
    ensures
        push_all(base, a + b) == push_all(push_all(base, a), b),
    decreases a.len(),
{
    if a.len() > 0 {
        assert((a + b).drop_first() =~= a.drop_first() + b);
        assert((a + b)[0] == a[0]);
        lemma_push_all_append(push_path(base, a[0]), a.drop_first(), b);
    } else {
        assert(a + b =~= b);
    }
}

/// `append` placed below `base` (`base` joined with the components of an
/// absolute `append`, or with a relative `append` as it stands).
pub fn path_append(base: &str, append: &str) -> (r: String)
    ensures
        r@ == path_append_spec(base@, append@),
{
    let b = str_chars(base);
    let a = str_chars(append);
    let mut res = b.clone();
    if a.len() > 0 && a[0] == '/' {
        let mut i: usize = 0;
        proof {
            assert(a@.skip(0) =~= a@);
            assert(res@ == b@);
        }
        while i < a.len()
            invariant
                i <= a@.len(),
                a@ == append@,
                a@.len() > 0 && a@[0] == '/',
                push_all(res@, segments(a@.skip(i as int))) == push_all(base@, segments(a@)),
            decreases a@.len() - i,
        {
            if a[i] == '/' {
                proof {
                    lemma_segments_slash(a@, i as int);
                }
                i = i + 1;
            } else {
                let j = find_char_from(a.as_slice(), i, '/');
                proof {
                    lemma_span(a@.skip(i as int), not_char_pred('/'));
                    assert(a@.skip(i as int)[0] == a@[i as int]);
                    lemma_segments_seg(a@, i as int, j as int);
                }
                let seg = slice_to_vec(a.as_slice(), i, j);
                let is_dot = seg.len() == 1 && seg[0] == '.';
                proof {
                    if is_dot {
                        assert(seg@ =~= seq!['.']);
                    }
                }
                let ghost before = res@;
                if !is_dot {
                    push_path_exec(&mut res, seg.as_slice());
                    proof {
                        lemma_push_all_append(before, seq![seg@], segments(a@.skip(j as int)));
                        assert(push_all(before, seq![seg@]) == push_all(
                            push_path(before, seg@),
                            seq![seg@].drop_first(),
                        ));
                        assert(seq![seg@].drop_first() =~= Seq::<Seq<char>>::empty());
                    }
                } else {
                    proof {
                        assert(Seq::<Seq<char>>::empty() + segments(a@.skip(j as int)) =~= segments(
                            a@.skip(j as int),
                        ));
                    }
                }
                i = j;
            }
        }
        proof {
            assert(a@.skip(i as int).len() == 0);
        }
    } else {
        push_path_exec(&mut res, a.as_slice());
    }
    string_from_chars(res.as_slice())
}

pub proof fn lemma_push_all_prefix(base: Seq<char>, segs: Seq<Seq<char>>)
    requires
        forall|i: int| 0 <= i < segs.len() ==> !(segs[i].len() > 0 && #[trigger] segs[i][0] == '/'),
    ensures
        is_prefix(base, push_all(base, segs)),
    decreases segs.len(),
{
    if segs.len() > 0 {
        let next = push_path(base, segs[0]);
        assert(!(segs[0].len() > 0 && segs[0][0] == '/'));
        assert(is_prefix(base, next)) by {
            assert(next.take(base.len() as int) =~= base);
        }
        assert forall|i: int| 0 <= i < segs.drop_first().len() implies !(
        segs.drop_first()[i].len() > 0 && #[trigger] segs.drop_first()[i][0] == '/') by {
            assert(segs.drop_first()[i] == segs[i + 1]);
        }
        lemma_push_all_prefix(next, segs.drop_first());
        let r = push_all(next, segs.drop_first());
        assert(r.take(base.len() as int) =~= r.take(next.len() as int).take(base.len() as int));
    } else {
        assert(base.take(base.len() as int) =~= base);
    }
}

proof fn lemma_segments_no_slash(p: Seq<char>)
    ensures
        forall|i: int|
            0 <= i < segments(p).len() ==> !(segments(p)[i].len() > 0 && #[trigger] segments(
                p,
            )[i][0] == '/'),
    decreases p.len(),
{
    if p.len() > 0 {
        if p[0] == '/' {
            lemma_segments_no_slash(p.drop_first());
            assert(segments(p) == segments(p.drop_first()));
        } else {
            let k = find_char(p, '/');
            lemma_span(p, not_char_pred('/'));
            lemma_segments_no_slash(p.skip(k as int));
            let seg = p.take(k as int);
            assert(seg[0] == p[0]);
            let head: Seq<Seq<char>> = if seg == seq!['.'] {
                seq![]
            } else {
                seq![seg]
            };
            assert(segments(p) == head + segments(p.skip(k as int)));
            assert forall|i: int|
                0 <= i < segments(p).len() implies !(segments(p)[i].len() > 0
                && #[trigger] segments(p)[i][0] == '/') by {
                if i < head.len() {
                    assert(segments(p)[i] == seg);
                } else {
                    assert(segments(p)[i] == segments(p.skip(k as int))[i - head.len()]);
                }
            }
        }
    }
}

/// An absolute path appended below `base` stays below `base`: the result
/// begins with `base`.
pub proof fn law_path_append_stays_below(base: Seq<char>, append: Seq<char>)
    requires
        append.len() > 0 && append[0] == '/',
    ensures
        is_prefix(base, path_append_spec(base, append)),
{
    lemma_segments_no_slash(append);
    lemma_push_all_prefix(base, segments(append));
}

/// The components of a path as `Path::components` yields them: the root as
/// `/`, a leading `.` of a relative path as `.`, then the named components.
pub open spec fn path_comps(p: Seq<char>) -> Seq<Seq<char>> {
    if p.len() > 0 && p[0] == '/' {
        seq![seq!['/']] + segments(p)
    } else if p.len() > 0 && p[0] == '.' && (p.len() == 1 || p[1] == '/') {
        seq![seq!['.']] + segments(p)
    } else {
        segments(p)
    }
}

/// `Path::starts_with`: the components of `base` begin those of `p`.
pub open spec fn path_starts_with(p: Seq<char>, base: Seq<char>) -> bool {
    path_comps(base).len() <= path_comps(p).len() && path_comps(p).take(
        path_comps(base).len() as int,
    ) == path_comps(base)
}

/// `Path::file_name`: the last component where it is a name.
pub open spec fn file_name(p: Seq<char>) -> Option<Seq<char>> {
    let c = path_comps(p);
    if c.len() > 0 && c.last() != seq!['/'] && c.last() != seq!['.'] && c.last() != seq!['.', '.'] {
        Some(c.last())
    } else {
        None
    }
}

/// The named components of `p` (see `segments`).
fn segments_exec(p: &[char]) -> (r: Vec<Vec<char>>)
    ensures
        view_all(r@) == segments(p@),
{
    let mut r: Vec<Vec<char>> = Vec::new();
    let mut i: usize = 0;
    proof {
        assert(p@.skip(0) =~= p@);
    }
    while i < p.len()
        invariant
            i <= p@.len(),
            view_all(r@) + segments(p@.skip(i as int)) == segments(p@),
        decreases p@.len() - i,
    {
        if p[i] == '/' {
            proof {
                lemma_segments_slash(p@, i as int);
            }
            i = i + 1;
        } else {
            let j = find_char_from(p, i, '/');
            proof {
                lemma_span(p@.skip(i as int), not_char_pred('/'));
                assert(p@.skip(i as int)[0] == p@[i as int]);
                lemma_segments_seg(p@, i as int, j as int);
            }
            let seg = slice_to_vec(p, i, j);
            let is_dot = seg.len() == 1 && seg[0] == '.';
            proof {
                if is_dot {
                    assert(seg@ =~= seq!['.']);
                }
            }
            let ghost before = view_all(r@);
            if !is_dot {
                r.push(seg);
                proof {
                    assert(view_all(r@) =~= before.push(p@.subrange(i as int, j as int)));
                    assert(before.push(p@.subrange(i as int, j as int)) + segments(
                        p@.skip(j as int),
                    ) =~= before + (seq![p@.subrange(i as int, j as int)] + segments(
                        p@.skip(j as int),
                    )));
                }
            } else {
                proof {
                    assert(Seq::<Seq<char>>::empty() + segments(p@.skip(j as int)) =~= segments(
                        p@.skip(j as int),
                    ));
                }
            }
            i = j;
        }
    }
    proof {
        assert(p@.skip(i as int).len() == 0);
        assert(view_all(r@) + segments(p@.skip(i as int)) =~= view_all(r@));
    }
    r
}

/// The components of a path (see `path_comps`).
pub fn path_components(p: &[char]) -> (r: Vec<Vec<char>>)
    ensures
        view_all(r@) == path_comps(p@),
{
    let segs = segments_exec(p);
    let mut r: Vec<Vec<char>> = Vec::new();
    if p.len() > 0 && p[0] == '/' {
        r.push(vec!['/']);
    } else if p.len() > 0 && p[0] == '.' && (p.len() == 1 || p[1] == '/') {
        r.push(vec!['.']);
    }
    let ghost head = view_all(r@);
    proof {
        if p@.len() > 0 && p@[0] == '/' {
            assert(head[0] == r@[0]@);
            assert(r@[0]@ =~= seq!['/']);
            assert(head =~= seq![seq!['/']]);
        } else if p@.len() > 0 && p@[0] == '.' && (p@.len() == 1 || p@[1] == '/') {
            assert(head[0] == r@[0]@);
            assert(r@[0]@ =~= seq!['.']);
            assert(head =~= seq![seq!['.']]);
        } else {
            assert(head =~= Seq::<Seq<char>>::empty());
        }
    }
    let mut i: usize = 0;
    while i < segs.len()
        invariant
            i <= segs@.len(),
            view_all(r@) == head + view_all(segs@).take(i as int),
        decreases segs@.len() - i,
    {
        let ghost before = view_all(r@);
        r.push(slice_to_vec(segs[i].as_slice(), 0, segs[i].len()));
        proof {
            assert(segs@[i as int]@.subrange(0, segs@[i as int]@.len() as int) =~= segs@[i as int]@);
            assert(view_all(segs@).take(i + 1) =~= view_all(segs@).take(i as int).push(
                segs@[i as int]@,
            ));
            assert(view_all(r@) =~= before.push(segs@[i as int]@));
        }
        i = i + 1;
    }
    proof {
        assert(view_all(segs@).take(segs@.len() as int) =~= view_all(segs@));
    }
    r
}

/// Component-wise comparison of two paths, as `Path` compares.
pub fn path_eq(a: &[char], b: &[char]) -> (r: bool)
    ensures
        r == (path_comps(a@) == path_comps(b@)),
{
    let ca = path_components(a);
    let cb = path_components(b);
    seqs_eq(&ca, &cb)
}

fn seqs_eq(a: &Vec<Vec<char>>, b: &Vec<Vec<char>>) -> (r: bool)
    ensures
        r == (view_all(a@) == view_all(b@)),
{
    if a.len() != b.len() {
        proof {
            assert(view_all(a@).len() != view_all(b@).len());
        }
        return false;
    }
    let mut i: usize = 0;
    while i < a.len()
        invariant
            a@.len() == b@.len(),
            i <= a@.len(),
            forall|j: int| 0 <= j < i ==> view_all(a@)[j] == view_all(b@)[j],
        decreases a@.len() - i,
    {
        if !chars_eq(a[i].as_slice(), b[i].as_slice()) {
            proof {
                assert(view_all(a@)[i as int] != view_all(b@)[i as int]);
            }
            return false;
        }
        i = i + 1;
    }
    assert(view_all(a@) =~= view_all(b@));
    true
}

/// `Path::starts_with` (see `path_starts_with`).
pub fn path_starts_with_exec(p: &[char], base: &[char]) -> (r: bool)
    ensures
        r == path_starts_with(p@, base@),
{
    let cp = path_components(p);
    let cb = path_components(base);
    if cb.len() > cp.len() {
        return false;
    }
    let mut i: usize = 0;
    while i < cb.len()
        invariant
            cb@.len() <= cp@.len(),
            i <= cb@.len(),
            view_all(cp@) == path_comps(p@),
            view_all(cb@) == path_comps(base@),
            forall|j: int| 0 <= j < i ==> view_all(cp@)[j] == view_all(cb@)[j],
        decreases cb@.len() - i,
    {
        if !chars_eq(cp[i].as_slice(), cb[i].as_slice()) {
            proof {
                assert(view_all(cp@).take(cb@.len() as int)[i as int] != view_all(cb@)[i as int]);
            }
            return false;
        }
        i = i + 1;
    }
    assert(view_all(cp@).take(cb@.len() as int) =~= view_all(cb@));
    true
}

/// `Path::file_name` (see `file_name`).
pub fn file_name_exec(p: &[char]) -> (r: Option<Vec<char>>)
    ensures
        match file_name(p@) {
            Some(n) => r matches Some(x) && x@ == n,
            None => r is None,
        },
{
    let c = path_components(p);
    if c.len() == 0 {
        return None;
    }
    let last = &c[c.len() - 1];
    let root = vec!['/'];
    let dot = vec!['.'];
    let dotdot = vec!['.', '.'];
    proof {
        assert(root@ =~= seq!['/']);
        assert(dot@ =~= seq!['.']);
        assert(dotdot@ =~= seq!['.', '.']);
        assert(view_all(c@).last() == last@);
    }
    if chars_eq(last.as_slice(), root.as_slice()) || chars_eq(last.as_slice(), dot.as_slice())
        || chars_eq(last.as_slice(), dotdot.as_slice()) {
        None
    } else {
        Some(slice_to_vec(last.as_slice(), 0, last.len()))
    }
}

/// Number of bytes of the UTF-8 encoding of a character.
pub open spec fn utf8_width(c: char) -> nat {
    if (c as u32) < 0x80 {
        1
    } else if (c as u32) < 0x800 {
        2
    } else if (c as u32) < 0x10000 {
        3
    } else {
        4
    }
}

/// Number of bytes of the UTF-8 encoding of a text, what `str::len` gives.
pub open spec fn utf8_len(s: Seq<char>) -> nat
    decreases s.len(),
{
    if s.len() == 0 {
        0
    } else {
        utf8_len(s.drop_last()) + utf8_width(s.last())
    }
}

pub fn utf8_len_exec(s: &[char]) -> (r: u128)
    ensures
        r == utf8_len(s@),
{
    let mut r: u128 = 0;
    let mut i: usize = 0;
    while i < s.len()
        invariant
            i <= s@.len(),
            r == utf8_len(s@.take(i as int)),
            r <= 4 * i,
        decreases s@.len() - i,
    {
        proof {
            assert(s@.take(i + 1).drop_last() =~= s@.take(i as int));
        }
        let u = s[i] as u32;
        let w: u128 = if u < 0x80 {
            1
        } else if u < 0x800 {
            2
        } else if u < 0x10000 {
            3
        } else {
            4
        };
        r = r + w;
        i = i + 1;
    }
    assert(s@.take(s@.len() as int) =~= s@);
    r
}

// ---------------------------------------------------------------------------
// Mount table and command output
// ---------------------------------------------------------------------------

/// The mountpoint that the mount table `ls` (its lines) gives for `device`:
/// the second word of the first line whose first word is `device`; an error
/// where that line has no second word.
pub open spec fn mtab_mountpoint(ls: Seq<Seq<char>>, device: Seq<char>) -> Result<
    Option<Seq<char>>,
    (),
>
    decreases ls.len(),
{
    if ls.len() == 0 {
        Ok(None)
    } else {
        let w = words(ls[0]);
        if w.len() > 0 && w[0] == device {
            if w.len() >= 2 {
                Ok(Some(w[1]))
            } else {
                Err(())
            }
        } else {
            mtab_mountpoint(ls.drop_first(), device)
        }
    }
}

/// Look `device` up in the text of `/etc/mtab`.
pub fn mountpoint_in_mtab(mtab: &str, device: &str) -> (r: Result<Option<String>, Error>)
    ensures
        match mtab_mountpoint(lines(mtab@), device@) {
            Ok(Some(mp)) => r matches Ok(Some(m)) && m@ == mp,
            Ok(None) => r matches Ok(None),
            Err(_) => r matches Err(e) && e.kind == ErrorKind::InvState,
        },
{
    let text = str_chars(mtab);
    let dev = str_chars(device);
    let ls = split_lines(text.as_slice());
    let mut i: usize = 0;
    proof {
        assert(view_all(ls@).skip(0) =~= view_all(ls@));
    }
    while i < ls.len()
        invariant
            i <= ls@.len(),
            view_all(ls@) == lines(mtab@),
            dev@ == device@,
            mtab_mountpoint(view_all(ls@).skip(i as int), device@) == mtab_mountpoint(
                lines(mtab@),
                device@,
            ),
        decreases ls@.len() - i,
    {
        let w = split_ws(ls[i].as_slice());
        let ghost rest = view_all(ls@).skip(i as int);
        proof {
            assert(rest[0] == ls@[i as int]@);
            assert(rest.drop_first() =~= view_all(ls@).skip(i + 1));
        }
        if w.len() > 0 && chars_eq(w[0].as_slice(), dev.as_slice()) {
            proof {
                assert(view_all(w@)[0] == w@[0]@);
            }
            if w.len() >= 2 {
                proof {
                    assert(view_all(w@)[1] == w@[1]@);
                }
                return Ok(Some(string_from_chars(w[1].as_slice())));
            } else {
                return Err(Error::with_context(ErrorKind::InvState, "Encountered invalid line in /etc/mtab"));
            }
        }
        proof {
            if w.len() > 0 {
                assert(view_all(w@)[0] == w@[0]@);
            }
        }
        i = i + 1;
    }
    proof {
        assert(view_all(ls@).skip(i as int).len() == 0);
    }
    Ok(None)
}

/// Process ids in the output of `pidof`: every word parsed as a `u32`.
pub open spec fn parse_pids(ws: Seq<Seq<char>>) -> Option<Seq<u32>>
    decreases ws.len(),
{
    if ws.len() == 0 {
        Some(seq![])
    } else {
        match (parse_u32_spec(ws[0]), parse_pids(ws.drop_first())) {
            (Some(p), Some(rest)) => Some(seq![p] + rest),
            _ => None,
        }
    }
}

/// The process ids that `pidof` printed; none where it failed; an `Upstream`
/// error where a word is not a number.
pub fn pids_from_output(success: bool, stdout: &str) -> (r: Result<Vec<u32>, Error>)
    ensures
        !success ==> (r matches Ok(v) && v@.len() == 0),
        success ==> match parse_pids(words(stdout@)) {
            Some(p) => r matches Ok(v) && v@ == p,
            None => r matches Err(e) && e.kind == ErrorKind::Upstream,
        },
{
    let mut res: Vec<u32> = Vec::new();
    if !success {
        return Ok(res);
    }
    let text = str_chars(stdout);
    let ws = split_ws(text.as_slice());
    let ghost all = view_all(ws@);
    let mut i: usize = 0;
    proof {
        assert(all.skip(0) =~= all);
    }
    while i < ws.len()
        invariant
            i <= ws@.len(),
            success,
            all == view_all(ws@),
            all == words(stdout@),
            parse_pids(all) == (match parse_pids(all.skip(i as int)) {
                Some(rest) => Some(res@ + rest),
                None => None,
            }),
        decreases ws@.len() - i,
    {
        let ghost rest = all.skip(i as int);
        proof {
            assert(rest[0] == ws@[i as int]@);
            assert(rest.drop_first() =~= all.skip(i + 1));
        }
        match parse_u32(ws[i].as_slice()) {
            Some(p) => {
                let ghost old_res = res@;
                res.push(p);
                proof {
                    match parse_pids(all.skip(i + 1)) {
                        Some(r2) => {
                            assert(old_res + (seq![p] + r2) =~= res@ + r2);
                        },
                        None => {},
                    }
                }
            },
            None => {
                return Err(Error::with_context(ErrorKind::Upstream, "pidof: Failed to parse string to u32"));
            },
        }
        i = i + 1;
    }
    proof {
        assert(all.skip(i as int).len() == 0);
        assert(res@ + Seq::<u32>::empty() =~= res@);
    }
    Ok(res)
}

// ---------------------------------------------------------------------------
// /etc/os-release
// ---------------------------------------------------------------------------

/// The value of a line `PRETTY_NAME="<value>"`, the value holding at least one
/// character and no `"`.
pub open spec fn pretty_name_of(l: Seq<char>) -> Option<Seq<char>> {
    let key = "PRETTY_NAME=\""@;
    if is_prefix(key, l) && l.len() >= key.len() + 2 && l.last() == '"' && !l.subrange(
        key.len() as int,
        l.len() - 1,
    ).contains('"') {
        Some(l.subrange(key.len() as int, l.len() - 1))
    } else {
        None
    }
}

/// The pretty name of the first line of `os-release` that gives one.
pub open spec fn os_name_spec(ls: Seq<Seq<char>>) -> Option<Seq<char>>
    decreases ls.len(),
{
    if ls.len() == 0 {
        None
    } else {
        match pretty_name_of(ls[0]) {
            Some(n) => Some(n),
            None => os_name_spec(ls.drop_first()),
        }
    }
}

fn pretty_name_exec(l: &[char], key: &[char]) -> (r: Option<Vec<char>>)
    requires
        key@ == "PRETTY_NAME=\""@,
    ensures
        match pretty_name_of(l@) {
            Some(n) => r matches Some(v) && v@ == n,
            None => r is None,
        },
{
    if !starts_with(l, key) || l.len() < 2 || l.len() - 2 < key.len() || l[l.len() - 1] != '"' {
        return None;
    }
    let mut i: usize = key.len();
    while i < l.len() - 1
        invariant
            key@.len() <= i <= l@.len() - 1,
            key@ == "PRETTY_NAME=\""@,
            forall|j: int| key@.len() <= j < i ==> l@[j] != '"',
        decreases l@.len() - i,
    {
        if l[i] == '"' {
            proof {
                let m = l@.subrange(key@.len() as int, l@.len() - 1);
                assert(m[i - key@.len()] == '"');
                assert(m.contains('"'));
                assert(pretty_name_of(l@) is None);
            }
            return None;
        }
        i = i + 1;
    }
    proof {
        let m = l@.subrange(key@.len() as int, l@.len() - 1);
        if m.contains('"') {
            let j = choose|j: int| 0 <= j < m.len() && m[j] == '"';
            assert(l@[j + key@.len()] == '"');
        }
    }
    Some(slice_to_vec(l, key.len(), l.len() - 1))
}

/// The OS name that the text of `/etc/os-release` gives; a `NotFound` error
/// where no line gives one.
pub fn os_name_from_release(text: &str) -> (r: Result<String, Error>)
    ensures
        match os_name_spec(lines(text@)) {
            Some(n) => r matches Ok(s) && s@ == n,
            None => r matches Err(e) && e.kind == ErrorKind::NotFound,
        },
{
    let t = str_chars(text);
    let key = str_chars("PRETTY_NAME=\"");
    let ls = split_lines(t.as_slice());
    let mut i: usize = 0;
    proof {
        assert(view_all(ls@).skip(0) =~= view_all(ls@));
    }
    while i < ls.len()
        invariant
            i <= ls@.len(),
            key@ == "PRETTY_NAME=\""@,
            view_all(ls@) == lines(text@),
            os_name_spec(view_all(ls@).skip(i as int)) == os_name_spec(lines(text@)),
        decreases ls@.len() - i,
    {
        let ghost rest = view_all(ls@).skip(i as int);
        proof {
            assert(rest[0] == ls@[i as int]@);
            assert(rest.drop_first() =~= view_all(ls@).skip(i + 1));
        }
        match pretty_name_exec(ls[i].as_slice(), key.as_slice()) {
            Some(n) => {
                return Ok(string_from_chars(n.as_slice()));
            },
            None => {},
        }
        i = i + 1;
    }
    proof {
        assert(view_all(ls@).skip(i as int).len() == 0);
    }
    Err(Error::with_context(ErrorKind::NotFound, "get_os_name: could not be located in os-release"))
}

// ---------------------------------------------------------------------------
// What is on the disk
// ---------------------------------------------------------------------------

/// Whether anything exists at `file`; calls `Path::exists`. What the disk
/// holds decides, so nothing is stated of the result.
#[verifier::external_body]
pub fn file_exists(file: &str) -> bool {
    std::path::Path::new(file).exists()
}

/// `nix::sys::stat::stat` on `name`: the file's mode, or the error number that
/// the call failed with. What the disk holds decides, so nothing is stated of
/// the result.
#[verifier::external_body]
fn stat_mode(name: &str) -> Result<u32, i32> {
    match nix::sys::stat::stat(name) {
        Ok(st) => Ok(st.st_mode as u32),
        Err(e) => Err(e as i32),
    }
}

/// The file type bits of a mode, and the type of a directory.
pub const S_IFMT: u32 = 0o170000;
pub const S_IFDIR: u32 = 0o040000;
/// The error number of a missing file.
pub const ENOENT: i32 = 2;

/// Whether a mode is that of a directory.
pub fn mode_is_dir(mode: u32) -> (r: bool)
    ensures
        r == (mode & S_IFMT == S_IFDIR),
{
    mode & S_IFMT == S_IFDIR
}

/// What `stat` found, as an answer to whether a directory is there: a
/// directory or something else, nothing where the file is missing, and an
/// `Upstream` error where `stat` failed otherwise.
pub fn dir_from_stat(st: Result<u32, i32>) -> (r: Result<bool, Error>)
    ensures
        match st {
            Ok(m) => r matches Ok(b) && b == (m & S_IFMT == S_IFDIR),
            Err(e) => if e == ENOENT {
                r matches Ok(b) && !b
            } else {
                r matches Err(x) && x.kind == ErrorKind::Upstream
            },
        },
{
    match st {
        Ok(m) => Ok(mode_is_dir(m)),
        Err(e) => if e == ENOENT {
            Ok(false)
        } else {
            Err(Error::with_context(ErrorKind::Upstream, "Failed to stat path"))
        },
    }
}

/// Whether a directory is at `name` (see `dir_from_stat`).
pub fn dir_exists(name: &str) -> (r: Result<bool, Error>)
    ensures
        r matches Err(e) ==> e.kind == ErrorKind::Upstream,
{
    dir_from_stat(stat_mode(name))
}

// ---------------------------------------------------------------------------
// C strings and dumps
// ---------------------------------------------------------------------------

/// The bytes of a C string holding `path`: the path's bytes and a NUL; an
/// `Upstream` error where the path holds a NUL byte itself.
pub fn path_to_cstring(path: &str) -> (r: Result<Vec<u8>, Error>)
    ensures
        nul_index(path.spec_bytes()) < path.spec_bytes().len() ==> (r matches Err(e) && e.kind
            == ErrorKind::Upstream),
        nul_index(path.spec_bytes()) == path.spec_bytes().len() ==> (r matches Ok(v) && v@
            == path.spec_bytes().push(0u8)),
{
    let src = path.as_bytes();
    let k = nul_index_exec(src);
    proof {
        lemma_nul_index(src@);
    }
    if k < src.len() {
        return Err(Error::with_context(ErrorKind::Upstream, "Failed to convert path to CString"));
    }
    let mut v: Vec<u8> = Vec::new();
    let mut i: usize = 0;
    while i < src.len()
        invariant
            i <= src@.len(),
            v@ =~= src@.take(i as int),
        decreases src@.len() - i,
    {
        v.push(src[i]);
        i = i + 1;
    }
    v.push(0u8);
    proof {
        assert(src@.take(src@.len() as int) =~= src@);
    }
    Ok(v)
}

/// What `String::from_utf8_lossy` makes of `bytes`.
pub uninterp spec fn lossy_utf8(bytes: Seq<u8>) -> Seq<char>;

/// Decodes `bytes` with `String::from_utf8_lossy`. Its documentation: valid
/// UTF-8, as ASCII is, comes out unchanged; other sequences are replaced.
#[verifier::external_body]
pub(crate) fn utf8_lossy(bytes: &[u8]) -> (r: String)
    ensures
        r@ == lossy_utf8(bytes@),
        (forall|i: int| 0 <= i < bytes@.len() ==> bytes@[i] < 128) ==> r@ == bytes@.map_values(
            |b: u8| b as char,
        ),
{
    String::from_utf8_lossy(bytes).into_owned()
}

/// The text of a NUL terminated C string: its bytes before the first NUL,
/// decoded as `from_utf8_lossy` does; an `InvParam` error where there is no NUL.
pub fn string_from_c_string(c_string: &[u8]) -> (r: Result<String, Error>)
    ensures
        nul_index(c_string@) < c_string@.len() ==> (r matches Ok(s) && s@ == lossy_utf8(
            c_string@.take(nul_index(c_string@) as int),
        )),
        nul_index(c_string@) == c_string@.len() ==> (r matches Err(e) && e.kind
            == ErrorKind::InvParam),
{
    let k = nul_index_exec(c_string);
    proof {
        lemma_nul_index(c_string@);
    }
    if k < c_string.len() {
        let mut v: Vec<u8> = Vec::new();
        let mut i: usize = 0;
        while i < k
            invariant
                i <= k <= c_string@.len(),
                v@ =~= c_string@.take(i as int),
            decreases k - i,
        {
            v.push(c_string[i]);
            i = i + 1;
        }
        Ok(utf8_lossy(v.as_slice()))
    } else {
        Err(Error::with_context(ErrorKind::InvParam, "Not a nul terminated C string"))
    }
}

/// How a byte shows in a dump: printable ASCII and space as themselves, any
/// other byte as a dot.
pub open spec fn dump_char(b: u8) -> char {
    if 32 <= b <= 126 {
        b as char
    } else {
        '.'
    }
}

/// `n` in hexadecimal, zero padded to at least eight digits.
pub open spec fn hex_pad8(n: nat) -> Seq<char> {
    let h = hex(n);
    if h.len() < 8 {
        Seq::new((8 - h.len()) as nat, |i: int| '0') + h
    } else {
        h
    }
}

/// Each byte as two hexadecimal digits, a space, the byte as `dump_char`
/// shows it, and two spaces.
pub open spec fn dump_bytes(b: Seq<u8>) -> Seq<char>
    decreases b.len(),
{
    if b.len() == 0 {
        seq![]
    } else {
        dump_bytes(b.drop_last()) + hex2(b.last() as nat) + seq![' ', dump_char(b.last()), ' ', ' ']
    }
}

/// The line of the dump for the (up to) sixteen bytes from `start`: the
/// offset, then the bytes.
pub open spec fn dump_line(b: Seq<u8>, start: nat) -> Seq<char> {
    let end: int = if start + 16 < b.len() {
        (start + 16) as int
    } else {
        b.len() as int
    };
    "0x"@ + hex_pad8(start) + ": "@ + dump_bytes(b.subrange(start as int, end)) + seq!['\n']
}

/// The first `n` lines of the dump.
pub open spec fn dump_lines(b: Seq<u8>, n: nat) -> Seq<char>
    decreases n,
{
    if n == 0 {
        seq![]
    } else {
        dump_lines(b, (n - 1) as nat) + dump_line(b, ((n - 1) * 16) as nat)
    }
}

fn hex_pad8_exec(n: u64) -> (r: Vec<char>)
    ensures
        r@ == hex_pad8(n as nat),
{
    let h = u64_to_hex(n);
    if h.len() < 8 {
        let mut r: Vec<char> = Vec::new();
        let pad = 8 - h.len();
        let mut i: usize = 0;
        while i < pad
            invariant
                i <= pad,
                r@ =~= Seq::new(i as nat, |k: int| '0'),
            decreases pad - i,
        {
            r.push('0');
            i = i + 1;
        }
        push_chars(&mut r, h.as_slice());
        r
    } else {
        h
    }
}

/// A hex dump of `buffer`: lines of sixteen bytes (see `dump_line`).
pub fn hex_dump(buffer: &[u8]) -> (r: String)
    requires
        buffer@.len() + 16 <= usize::MAX,
    ensures
        r@ == dump_lines(buffer@, ((buffer@.len() + 15) / 16) as nat),
{
    let len = buffer.len();
    let mut out: Vec<char> = Vec::new();
    let mut idx: usize = 0;
    let mut line: usize = 0;
    while idx < len
        invariant
            len == buffer@.len(),
            len + 16 <= usize::MAX,
            idx <= len,
            idx < len ==> idx == line * 16 && line < (len + 15) / 16,
            idx == len ==> line == (len + 15) / 16,
            out@ == dump_lines(buffer@, line as nat),
        decreases len - idx,
    {
        push_str(&mut out, "0x");
        let h = hex_pad8_exec(idx as u64);
        push_chars(&mut out, h.as_slice());
        push_str(&mut out, ": ");
        let end: usize = if idx + 16 < len {
            idx + 16
        } else {
            len
        };
        let ghost sub = buffer@.subrange(idx as int, end as int);
        let mut piece: Vec<char> = Vec::new();
        let mut j: usize = idx;
        while j < end
            invariant
                idx <= j <= end <= len,
                len == buffer@.len(),
                sub == buffer@.subrange(idx as int, end as int),
                piece@ == dump_bytes(sub.take(j - idx)),
            decreases end - j,
        {
            let b = buffer[j];
            let hb = u64_to_hex2(b as u64);
            proof {
                assert(sub.take(j - idx + 1).drop_last() =~= sub.take(j - idx));
                assert(sub.take(j - idx + 1).last() == b);
            }
            push_chars(&mut piece, hb.as_slice());
            piece.push(' ');
            let c: char = if 32 <= b && b <= 126 {
                b as char
            } else {
                '.'
            };
            piece.push(c);
            piece.push(' ');
            piece.push(' ');
            proof {
                assert(piece@ =~= dump_bytes(sub.take(j - idx + 1)));
            }
            j = j + 1;
        }
        proof {
            assert(sub.take(end - idx) =~= sub);
        }
        push_chars(&mut out, piece.as_slice());
        out.push('\n');
        proof {
            assert(((line + 1 - 1) * 16) as nat == idx);
            assert(out@ =~= dump_lines(buffer@, (line + 1) as nat));
        }
        proof {
            let l = line as int;
            let n = len as int;
            if end < len {
                assert(l * 16 + 16 < n ==> l + 1 < (n + 15) / 16) by (nonlinear_arith);
            } else {
                assert(l * 16 < n <= l * 16 + 16 ==> (n + 15) / 16 == l + 1) by (nonlinear_arith);
            }
        }
        idx = end;
        line = line + 1;
    }
    string_from_chars(out.as_slice())
}

} // verus!
