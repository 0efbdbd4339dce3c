//! What stage 1 reads from the output of system commands: the machine
//! architecture, the secure boot state, where a command lives, and the
//! arguments of `mktemp`.
use vstd::prelude::*;

use crate::migrator::common::mig_error::{MigError, MigErrorKind};
use crate::text::{
    chars_eq, find_char, find_char_from, is_prefix, is_ws, lemma_span, lines, push_str, slice_to_vec,
    span, span_ws_from, split_lines, starts_with, str_chars, string_from_chars, view_all, ws_pred,
};

verus! {

/// The processor architectures that stage 1 tells apart.
#[derive(Debug, Clone, Copy, PartialEq, Eq, Structural)]
pub enum OSArch {
    AMD64,
    ARM64,
    ARMHF,
    I386,
}

/// ASCII lower case of a character.
pub open spec fn ascii_lower(c: char) -> char {
    if 'A' <= c && c <= 'Z' {
        ((c as u32) + 32) as char
    } else {
        c
    }
}

/// `s`, lower-cased, is `t`. For the architecture names compared here, all
/// of them ASCII letters and digits without `i` next to a capital `I` with a
/// dot or `k`, Unicode lower-casing agrees with ASCII lower-casing.
pub open spec fn lower_eq(s: Seq<char>, t: Seq<char>) -> bool {
    s.len() == t.len() && forall|i: int| 0 <= i < s.len() ==> ascii_lower(#[trigger] s[i]) == t[i]
}

fn lower_eq_exec(s: &[char], t: &str) -> (r: bool)
    ensures
        r == lower_eq(s@, t@),
{
    let tc = str_chars(t);
    if s.len() != tc.len() {
        return false;
    }
    let mut i: usize = 0;
    while i < s.len()
        invariant
            s@.len() == tc@.len(),
            tc@ == t@,
            i <= s@.len(),
            forall|j: int| 0 <= j < i ==> ascii_lower(#[trigger] s@[j]) == tc@[j],
        decreases s@.len() - i,
    {
        let c = s[i];
        let l = if 'A' <= c && c <= 'Z' {
            ((c as u32) + 32) as u8 as char
        } else {
            c
        };
        assert(l == ascii_lower(c)) by {
            if 'A' <= c && c <= 'Z' {
                assert(((c as u32) + 32) < 256);
            }
        }
        if l != tc[i] {
            return false;
        }
        i = i + 1;
    }
    true
}

/// The architecture that `uname -m` printed: `x86_64`, `i386` and `armv7l`
/// in any case; another name is an `InvParam` error, a failed command an
/// `ExecProcess` error.
pub open spec fn os_arch_spec(success: bool, stdout: Seq<char>) -> Result<OSArch, MigErrorKind> {
    if !success {
        Err(MigErrorKind::ExecProcess)
    } else if lower_eq(stdout, "x86_64"@) {
        Ok(OSArch::AMD64)
    } else if lower_eq(stdout, "i386"@) {
        Ok(OSArch::I386)
    } else if lower_eq(stdout, "armv7l"@) {
        Ok(OSArch::ARMHF)
    } else {
        Err(MigErrorKind::InvParam)
    }
}

/// The architecture from the (trimmed) output of `uname -m` (see
/// `os_arch_spec`).
pub fn get_os_arch(success: bool, stdout: &str) -> (r: Result<OSArch, MigError>)
    ensures
        match os_arch_spec(success, stdout@) {
            Ok(a) => r matches Ok(b) && a == b,
            Err(k) => r matches Err(e) && e.inner.kind == k,
        },
{
    if !success {
        return Err(MigError::from_remark(MigErrorKind::ExecProcess, "get_os_arch: command failed"));
    }
    let s = str_chars(stdout);
    if lower_eq_exec(s.as_slice(), "x86_64") {
        Ok(OSArch::AMD64)
    } else if lower_eq_exec(s.as_slice(), "i386") {
        Ok(OSArch::I386)
    } else if lower_eq_exec(s.as_slice(), "armv7l") {
        Ok(OSArch::ARMHF)
    } else {
        Err(MigError::from_remark(MigErrorKind::InvParam, "get_os_arch: unsupported architecture"))
    }
}

/// A line `SecureBoot <state>` with whitespace in between, and the state:
/// `Some(true)` for `enabled`, `Some(false)` for `disabled`.
pub open spec fn sb_line(l: Seq<char>) -> Option<bool> {
    let w = span(l.skip(10), ws_pred());
    let rest = l.skip(10 + w as int);
    if l.len() >= 10 && l.take(10) == "SecureBoot"@ && w > 0 && (rest == "enabled"@ || rest
        == "disabled"@) {
        Some(rest == "enabled"@)
    } else {
        None
    }
}

/// The state that the first such line gives.
pub open spec fn sb_lines(ls: Seq<Seq<char>>) -> Option<bool>
    decreases ls.len(),
{
    if ls.len() == 0 {
        None
    } else {
        match sb_line(ls[0]) {
            Some(b) => Some(b),
            None => sb_lines(ls.drop_first()),
        }
    }
}

fn sb_line_exec(l: &[char]) -> (r: Option<bool>)
    ensures
        r == sb_line(l@),
{
    let key = str_chars("SecureBoot");
    proof {
        reveal_strlit("SecureBoot");
    }
    if l.len() < 10 || !starts_with(l, key.as_slice()) {
        proof {
            if l@.len() >= 10 {
                assert(key@.len() == 10);
            }
        }
        return None;
    }
    let w = span_ws_from(l, 10);
    let rest = slice_to_vec(l, w, l.len());
    proof {
        assert(l@.take(10) == key@);
        assert(rest@ =~= l@.skip(10 + (w - 10)));
    }
    let en = str_chars("enabled");
    let dis = str_chars("disabled");
    if w == 10 {
        return None;
    }
    if chars_eq(rest.as_slice(), en.as_slice()) {
        Some(true)
    } else if chars_eq(rest.as_slice(), dis.as_slice()) {
        Some(false)
    } else {
        None
    }
}

/// Whether secure boot is on: off where the system has no UEFI directory or
/// `mokutil` is missing (its output `None`), else as the first line
/// `SecureBoot enabled|disabled` of its output says; an `InvParam` error where
/// there is no such line.
pub fn is_secure_boot(uefi_dir_exists: bool, mokutil_stdout: Option<&str>) -> (r: Result<
    bool,
    MigError,
>)
    ensures
        !uefi_dir_exists ==> r == Ok::<bool, MigError>(false),
        uefi_dir_exists && mokutil_stdout is None ==> r == Ok::<bool, MigError>(false),
        uefi_dir_exists && mokutil_stdout is Some ==> match sb_lines(lines(mokutil_stdout->0@)) {
            Some(b) => r == Ok::<bool, MigError>(b),
            None => r matches Err(e) && e.inner.kind == MigErrorKind::InvParam,
        },
{
    if !uefi_dir_exists {
        return Ok(false);
    }
    let out = match mokutil_stdout {
        Some(o) => o,
        None => {
            return Ok(false);
        },
    };
    let text = str_chars(out);
    let ls = split_lines(text.as_slice());
    let mut i: usize = 0;
    proof {
        assert(view_all(ls@).skip(0) =~= view_all(ls@));
    }
    while i < ls.len()
        invariant
            i <= ls@.len(),
            view_all(ls@) == lines(out@),
            uefi_dir_exists,
            mokutil_stdout == Some(out),
            sb_lines(view_all(ls@).skip(i as int)) == sb_lines(lines(out@)),
        decreases ls@.len() - i,
    {
        proof {
            assert(view_all(ls@).skip(i as int)[0] == ls@[i as int]@);
            assert(view_all(ls@).skip(i as int).drop_first() =~= view_all(ls@).skip(i + 1));
        }
        match sb_line_exec(ls[i].as_slice()) {
            Some(b) => {
                return Ok(b);
            },
            None => {},
        }
        i = i + 1;
    }
    Err(
        MigError::from_remark(
            MigErrorKind::InvParam,
            "is_secure_boot: failed to parse command output",
        ),
    )
}

/// The places that are searched for a command before `whereis` is asked.
pub open spec fn bin_candidates(cmd: Seq<char>) -> Seq<Seq<char>> {
    seq!["/bin/"@ + cmd, "/usr/bin/"@ + cmd, "/sbin/"@ + cmd, "/usr/sbin/"@ + cmd]
}

/// `/bin/<cmd>`, `/usr/bin/<cmd>`, `/sbin/<cmd>` and `/usr/sbin/<cmd>`, in
/// the order they are tried.
pub fn whereis_candidates(cmd: &str) -> (r: Vec<String>)
    ensures
        r@.len() == 4,
        forall|i: int| 0 <= i < 4 ==> #[trigger] r@[i]@ == bin_candidates(cmd@)[i],
{
    let c = str_chars(cmd);
    let mut r: Vec<String> = Vec::new();
    let mut v: Vec<char> = Vec::new();
    push_str(&mut v, "/bin/");
    crate::text::push_chars(&mut v, c.as_slice());
    r.push(string_from_chars(v.as_slice()));
    let mut v: Vec<char> = Vec::new();
    push_str(&mut v, "/usr/bin/");
    crate::text::push_chars(&mut v, c.as_slice());
    r.push(string_from_chars(v.as_slice()));
    let mut v: Vec<char> = Vec::new();
    push_str(&mut v, "/sbin/");
    crate::text::push_chars(&mut v, c.as_slice());
    r.push(string_from_chars(v.as_slice()));
    let mut v: Vec<char> = Vec::new();
    push_str(&mut v, "/usr/sbin/");
    crate::text::push_chars(&mut v, c.as_slice());
    r.push(string_from_chars(v.as_slice()));
    r
}

/// The second piece of a text split at single spaces, where there is one.
pub open spec fn second_piece(s: Seq<char>) -> Option<Seq<char>> {
    let k = find_char(s, ' ');
    if k >= s.len() {
        None
    } else {
        let rest = s.skip(k as int + 1);
        Some(rest.take(find_char(rest, ' ') as int))
    }
}

/// What `whereis -b <cmd>` printed: the path after its first space; a failed
/// command is an `ExecProcess` error, empty output an `InvParam` error, output
/// without a space a `NotFound` error.
pub fn whereis_output(success: bool, stdout: &str) -> (r: Result<String, MigError>)
    ensures
        !success ==> (r matches Err(e) && e.inner.kind == MigErrorKind::ExecProcess),
        success && stdout@.len() == 0 ==> (r matches Err(e) && e.inner.kind == MigErrorKind::InvParam),
        success && stdout@.len() > 0 ==> match second_piece(stdout@) {
            Some(p) => r matches Ok(x) && x@ == p,
            None => r matches Err(e) && e.inner.kind == MigErrorKind::NotFound,
        },
{
    if !success {
        return Err(MigError::from_remark(MigErrorKind::ExecProcess, "whereis: command failed"));
    }
    let s = str_chars(stdout);
    if s.len() == 0 {
        return Err(MigError::from_remark(MigErrorKind::InvParam, "whereis: no command output"));
    }
    let k = find_char_from(s.as_slice(), 0, ' ');
    proof {
        assert(s@.skip(0) =~= s@);
    }
    if k >= s.len() {
        return Err(MigError::from_remark(MigErrorKind::NotFound, "whereis: command not found"));
    }
    let e = find_char_from(s.as_slice(), k + 1, ' ');
    let p = slice_to_vec(s.as_slice(), k + 1, e);
    proof {
        let rest = s@.skip(k + 1);
        assert(p@ =~= rest.take(find_char(rest, ' ') as int));
    }
    Ok(string_from_chars(p.as_slice()))
}

/// The arguments of `mktemp`: `-p <path>` where a path is given, `-d` for a
/// directory, and the pattern where one is given.
pub open spec fn mktemp_args_spec(dir: bool, pattern: Option<Seq<char>>, path: Option<Seq<char>>) -> Seq<
    Seq<char>,
> {
    (match path {
        Some(p) => seq!["-p"@, p],
        None => seq![],
    }) + (if dir {
        seq!["-d"@]
    } else {
        seq![]
    }) + (match pattern {
        Some(p) => seq![p],
        None => seq![],
    })
}

pub open spec fn strs_view(v: Seq<String>) -> Seq<Seq<char>> {
    v.map_values(|s: String| s@)
}

pub fn mktemp_args(dir: bool, pattern: Option<&str>, path: Option<&str>) -> (r: Vec<String>)
    ensures
        strs_view(r@) == mktemp_args_spec(
            dir,
            match pattern {
                Some(p) => Some(p@),
                None => None,
            },
            match path {
                Some(p) => Some(p@),
                None => None,
            },
        ),
{
    let mut r: Vec<String> = Vec::new();
    let ghost mut g: Seq<Seq<char>> = seq![];
    if let Some(p) = path {
        r.push(string_from_chars(str_chars("-p").as_slice()));
        r.push(string_from_chars(str_chars(p).as_slice()));
        proof {
            g = seq!["-p"@, p@];
        }
    }
    assert(strs_view(r@) =~= g);
    if dir {
        r.push(string_from_chars(str_chars("-d").as_slice()));
        proof {
            g = g.push("-d"@);
        }
    }
    assert(strs_view(r@) =~= g);
    if let Some(p) = pattern {
        r.push(string_from_chars(str_chars(p).as_slice()));
        proof {
            g = g.push(p@);
        }
    }
    assert(strs_view(r@) =~= g);
    assert(g =~= mktemp_args_spec(
        dir,
        match pattern {
            Some(p) => Some(p@),
            None => None,
        },
        match path {
            Some(p) => Some(p@),
            None => None,
        },
    ));
    r
}

/// The path that `mktemp` printed; a failed command is an `ExecProcess`
/// error.
pub fn mktemp(success: bool, stdout: &str) -> (r: Result<String, MigError>)
    ensures
        success ==> (r matches Ok(p) && p@ == stdout@),
        !success ==> (r matches Err(e) && e.inner.kind == MigErrorKind::ExecProcess),
{
    if success {
        Ok(string_from_chars(str_chars(stdout).as_slice()))
    } else {
        Err(
            MigError::from_remark(
                MigErrorKind::ExecProcess,
                "Failed to create temporary file for image extraction",
            ),
        )
    }
}

} // verus!
