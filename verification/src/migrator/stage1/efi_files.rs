//! The EFI boot manager and the libraries it loads, found depth first from
//! `ldd`'s output; running `ldd` and looking at files is left to the caller.
use vstd::prelude::*;

use crate::common::{Error, ErrorKind};
use crate::migrator::stage1::exe_copy::{
    contains_str, copy_ok, copy_target, hex_paren_end, ldd_lib, ldd_lib_exec, sizes_sum, strs_view,
    FileCopy,
};
use crate::common::file_name;
use crate::text::{lines, split_lines, str_chars, string_from_chars, view_all};

verus! {

/// A line of `ldd` that the EFI setup reads: a library line that ends right
/// after its address; its path where `ldd` found one.
pub open spec fn efi_lib_path(l: Seq<char>) -> Option<Seq<char>> {
    match ldd_lib(l) {
        Some((_, Some(p), h)) => if h == l.len() {
            Some(p)
        } else {
            None
        },
        _ => None,
    }
}

/// The library paths of an `ldd` output, in order.
pub open spec fn efi_paths(ls: Seq<Seq<char>>) -> Seq<Seq<char>>
    decreases ls.len(),
{
    if ls.len() == 0 {
        seq![]
    } else {
        match efi_lib_path(ls.last()) {
            Some(p) => efi_paths(ls.drop_last()).push(p),
            None => efi_paths(ls.drop_last()),
        }
    }
}

/// The files for the EFI setup and the space they take.
#[derive(Debug)]
pub struct EfiFiles {
    pub req_space: u64,
    pub files: Vec<String>,
}

impl EfiFiles {
    /// No files yet.
    pub fn new() -> (r: EfiFiles)
        ensures
            r.req_space == 0,
            r.files@.len() == 0,
    {
        EfiFiles { req_space: 0, files: Vec::new() }
    }

    pub fn get_req_space(&self) -> (r: u64)
        ensures
            r == self.req_space,
    {
        self.req_space
    }

    /// Add a file of `size` bytes; whether it was new (only a new file's
    /// libraries are looked for).
    pub fn add_file(&mut self, path: &str, size: u64) -> (r: bool)
        requires
            old(self).req_space + size <= u64::MAX,
        ensures
            r == !strs_view(old(self).files@).contains(path@),
            r ==> strs_view(final(self).files@) == strs_view(old(self).files@).push(path@)
                && final(self).req_space == old(self).req_space + size,
            !r ==> final(self).files == old(self).files && final(self).req_space == old(
                self,
            ).req_space,
    {
        if contains_str(&self.files, path) {
            return false;
        }
        let ghost before = strs_view(self.files@);
        self.files.push(string_from_chars(str_chars(path).as_slice()));
        proof {
            assert(strs_view(self.files@) =~= before.push(path@));
        }
        self.req_space = self.req_space + size;
        true
    }

    /// The library paths of an `ldd` output (see `efi_paths`), to be added
    /// depth first.
    pub fn lib_paths(ldd_output: &str) -> (r: Vec<String>)
        ensures
            strs_view(r@) == efi_paths(lines(ldd_output@)),
    {
        let text = str_chars(ldd_output);
        let ls = split_lines(text.as_slice());
        let ghost all = view_all(ls@);
        let mut r: Vec<String> = Vec::new();
        let mut i: usize = 0;
        proof {
            assert(all.take(0) =~= Seq::<Seq<char>>::empty());
            assert(strs_view(r@) =~= Seq::<Seq<char>>::empty());
        }
        while i < ls.len()
            invariant
                i <= ls@.len(),
                all == view_all(ls@),
                all == lines(ldd_output@),
                strs_view(r@) == efi_paths(all.take(i as int)),
            decreases ls@.len() - i,
        {
            let l = ls[i].as_slice();
            proof {
                assert(all.take(i + 1).drop_last() =~= all.take(i as int));
                assert(all.take(i + 1).last() == l@);
            }
            let ghost before = strs_view(r@);
            match ldd_lib_exec(l) {
                Some((_, Some(p), h)) => {
                    if h == l.len() {
                        r.push(string_from_chars(p.as_slice()));
                        proof {
                            assert(strs_view(r@) =~= before.push(p@));
                        }
                    }
                },
                _ => {},
            }
            i = i + 1;
        }
        proof {
            assert(all.take(ls@.len() as int) =~= all);
        }
        r
    }

    /// The copies to make under `takeover_dir`, one for each file (see
    /// `copy_target`); an `InvState` error where a path has no file name.
    pub fn copy_files(&self, takeover_dir: &str) -> (r: Result<Vec<FileCopy>, Error>)
        ensures
            r matches Ok(v) ==> v@.len() == self.files@.len() && (forall|i: int|
                0 <= i < v@.len() ==> copy_ok(#[trigger] v@[i], takeover_dir@) && v@[i].src@
                    == self.files@[i]@),
            (forall|i: int| 0 <= i < self.files@.len() ==> file_name(#[trigger] self.files@[i]@) is Some)
                ==> r is Ok,
    {
        let mut v: Vec<FileCopy> = Vec::new();
        let mut j: usize = 0;
        while j < self.files.len()
            invariant
                j <= self.files@.len(),
                v@.len() == j,
                forall|k: int| 0 <= k < j ==> copy_ok(#[trigger] v@[k], takeover_dir@) && v@[k].src@
                    == self.files@[k]@,
            decreases self.files@.len() - j,
        {
            let c = copy_target(takeover_dir, self.files[j].as_str())?;
            v.push(c);
            j = j + 1;
        }
        Ok(v)
    }
}

/// The walk from the EFI boot manager over the libraries that `ldd` names
/// for each file, depth first: the files still to look at, as a stack whose
/// top comes next, and the files found so far with the space they take.
/// Each file is looked at once; what `ldd` named for it, and the size it was
/// counted with, are kept as ghost state.
pub struct EfiWalk {
    pub todo: Vec<String>,
    pub files: EfiFiles,
    pub start: Ghost<Seq<char>>,
    pub sizes: Ghost<Seq<u64>>,
    pub libs: Ghost<Map<Seq<char>, Seq<Seq<char>>>>,
}

impl EfiWalk {
    /// The walk is consistent: one size for each file, the space is their
    /// sum, no file is held twice, every file held was looked at, and every
    /// library named for a file is held or still to be looked at, as is the
    /// boot manager itself.
    pub open spec fn wf(&self) -> bool {
        let fs = strs_view(self.files.files@);
        let todo = strs_view(self.todo@);
        &&& self.sizes@.len() == fs.len()
        &&& self.files.req_space == sizes_sum(self.sizes@)
        &&& fs.no_duplicates()
        &&& forall|i: int| 0 <= i < fs.len() ==> self.libs@.dom().contains(#[trigger] fs[i])
        &&& forall|f: Seq<char>, p: Seq<char>|
            #![trigger fs.contains(f), self.libs@[f].contains(p)]
            fs.contains(f) && self.libs@[f].contains(p) ==> fs.contains(p) || todo.contains(p)
        &&& fs.contains(self.start@) || todo.contains(self.start@)
    }

    /// Start at the boot manager, with no files found.
    pub fn new(boot_mgr: &str) -> (r: EfiWalk)
        ensures
            r.wf(),
            r.start@ == boot_mgr@,
            strs_view(r.todo@) == seq![boot_mgr@],
            r.files.files@.len() == 0,
            r.files.req_space == 0,
    {
        let mut todo: Vec<String> = Vec::new();
        todo.push(string_from_chars(str_chars(boot_mgr).as_slice()));
        let r = EfiWalk {
            todo,
            files: EfiFiles::new(),
            start: Ghost(boot_mgr@),
            sizes: Ghost(Seq::empty()),
            libs: Ghost(Map::empty()),
        };
        proof {
            assert(strs_view(r.todo@) =~= seq![boot_mgr@]);
            assert(strs_view(r.todo@)[0] == boot_mgr@);
            assert(strs_view(r.files.files@) =~= Seq::<Seq<char>>::empty());
        }
        r
    }

    /// The next file to look at: files found already are passed over; `None`
    /// once nothing is left. The file stays on top until it is looked at.
    pub fn next(&mut self) -> (r: Option<String>)
        requires
            old(self).wf(),
        ensures
            final(self).wf(),
            final(self).files == old(self).files,
            final(self).start == old(self).start,
            final(self).sizes == old(self).sizes,
            final(self).libs == old(self).libs,
            r is None ==> final(self).todo@.len() == 0,
            r matches Some(p) ==> final(self).todo@.len() > 0 && p@ == final(self).todo@.last()@
                && !strs_view(final(self).files.files@).contains(p@),
    {
        while self.todo.len() > 0
            invariant
                self.wf(),
                self.files == old(self).files,
                self.start == old(self).start,
                self.sizes == old(self).sizes,
                self.libs == old(self).libs,
            decreases self.todo@.len(),
        {
            let top = self.todo.len() - 1;
            if !contains_str(&self.files.files, self.todo[top].as_str()) {
                let p = string_from_chars(str_chars(self.todo[top].as_str()).as_slice());
                return Some(p);
            }
            let ghost before = strs_view(self.todo@);
            let ghost x = before.last();
            self.todo.pop();
            proof {
                let fs = strs_view(self.files.files@);
                let todo = strs_view(self.todo@);
                assert(todo =~= before.drop_last());
                assert forall|q: Seq<char>| before.contains(q) implies fs.contains(q) || todo.contains(q) by {
                    let k = choose|k: int| 0 <= k < before.len() && before[k] == q;
                    if k < before.len() - 1 {
                        assert(todo[k] == q);
                    }
                }
            }
        }
        None
    }

    /// Look at the file on top: it must exist (a `FileNotFound` error where it
    /// does not); it is added with its `size`, and the libraries that `ldd`
    /// named for it (see `efi_paths`) are to be looked at next, the first
    /// named on top.
    pub fn visit(&mut self, exists: bool, size: u64, ldd_output: &str) -> (r: Result<(), Error>)
        requires
            old(self).wf(),
            old(self).todo@.len() > 0,
            !strs_view(old(self).files.files@).contains(old(self).todo@.last()@),
            old(self).files.req_space + size <= u64::MAX,
        ensures
            !exists ==> (r matches Err(e) && e.kind == ErrorKind::FileNotFound && *final(self)
                == *old(self)),
            exists ==> {
                let f = old(self).todo@.last()@;
                let ps = efi_paths(lines(ldd_output@));
                &&& r is Ok
                &&& final(self).wf()
                &&& final(self).start == old(self).start
                &&& strs_view(final(self).files.files@) == strs_view(old(self).files.files@).push(f)
                &&& final(self).files.req_space == old(self).files.req_space + size
                &&& final(self).sizes@ == old(self).sizes@.push(size)
                &&& final(self).libs@ == old(self).libs@.insert(f, ps)
                &&& strs_view(final(self).todo@) == strs_view(old(self).todo@).drop_last() + ps.reverse()
            },
    {
        if !exists {
            return Err(Error::with_context(ErrorKind::FileNotFound, "File could not be found"));
        }
        let ghost old_todo = strs_view(self.todo@);
        let ghost old_fs = strs_view(self.files.files@);
        let ghost old_libs = self.libs@;
        let ghost old_sizes = self.sizes@;
        let f = match self.todo.pop() {
            Some(f) => f,
            None => String::new(),
        };
        let ghost fv = f@;
        proof {
            assert(old_todo[old_todo.len() - 1] == fv);
            assert(!old_fs.contains(fv));
        }
        let added = self.files.add_file(f.as_str(), size);
        let paths = EfiFiles::lib_paths(ldd_output);
        let ghost ps = strs_view(paths@);
        proof {
            self.sizes = Ghost(old_sizes.push(size));
            self.libs = Ghost(old_libs.insert(fv, ps));
            assert(old_sizes.push(size).drop_last() =~= old_sizes);
        }
        let ghost files_now = self.files;
        let mut i: usize = paths.len();
        while i > 0
            invariant
                i <= paths@.len(),
                ps == strs_view(paths@),
                self.files == files_now,
                self.start == old(self).start,
                self.sizes@ == old_sizes.push(size),
                self.libs@ == old_libs.insert(fv, ps),
                strs_view(self.todo@) == old_todo.drop_last() + ps.subrange(i as int, ps.len() as int).reverse(),
            decreases i,
        {
            i = i - 1;
            let ghost before = strs_view(self.todo@);
            self.todo.push(string_from_chars(str_chars(paths[i].as_str()).as_slice()));
            proof {
                assert(ps.subrange(i as int, ps.len() as int).reverse() =~= ps.subrange(
                    i + 1,
                    ps.len() as int,
                ).reverse().push(ps[i as int]));
                assert(strs_view(self.todo@) =~= before.push(ps[i as int]));
            }
        }
        proof {
            let fs = strs_view(self.files.files@);
            let todo = strs_view(self.todo@);
            assert(ps.subrange(0, ps.len() as int) =~= ps);
            assert(fs =~= old_fs.push(fv));
            assert(old_todo.drop_last().push(fv) =~= old_todo);
            assert forall|q: Seq<char>| ps.contains(q) implies todo.contains(q) by {
                let k = choose|k: int| 0 <= k < ps.len() && ps[k] == q;
                assert(ps.reverse()[ps.len() - 1 - k] == q);
                assert(todo[old_todo.len() - 1 + ps.len() - 1 - k] == q);
            }
            assert forall|q: Seq<char>| old_todo.contains(q) implies fs.contains(q) || todo.contains(q) by {
                let k = choose|k: int| 0 <= k < old_todo.len() && old_todo[k] == q;
                if k == old_todo.len() - 1 {
                    assert(fs[fs.len() - 1] == q);
                } else {
                    assert(todo[k] == q);
                }
            }
            assert forall|g: Seq<char>, p: Seq<char>|
                #![trigger fs.contains(g), self.libs@[g].contains(p)]
                fs.contains(g) && self.libs@[g].contains(p) implies fs.contains(p) || todo.contains(p) by {
                if g == fv {
                    assert(self.libs@[g] == ps);
                } else {
                    let k = choose|k: int| 0 <= k < fs.len() && fs[k] == g;
                    assert(old_fs[k] == g);
                    assert(old_fs.contains(g));
                    assert(self.libs@[g] == old_libs[g]);
                    assert(old_fs.contains(p) || old_todo.contains(p));
                    if old_fs.contains(p) {
                        let j = choose|j: int| 0 <= j < old_fs.len() && old_fs[j] == p;
                        assert(fs[j] == p);
                    }
                }
            }
            assert forall|i: int| 0 <= i < fs.len() implies self.libs@.dom().contains(#[trigger] fs[i]) by {
                if i < old_fs.len() {
                    assert(fs[i] == old_fs[i]);
                }
            }
            if old_fs.contains(self.start@) {
                let j = choose|j: int| 0 <= j < old_fs.len() && old_fs[j] == self.start@;
                assert(fs[j] == self.start@);
            }
        }
        Ok(())
    }
}

/// When the walk from the boot manager is done, the files found are the
/// boot manager and, transitively, every library that `ldd` named for a file
/// found, each held once, and the space they take is the sum of their sizes,
/// each counted once.
pub proof fn law_efi_walk_complete(w: EfiWalk)
    requires
        w.wf(),
        w.todo@.len() == 0,
    ensures
        strs_view(w.files.files@).contains(w.start@),
        strs_view(w.files.files@).no_duplicates(),
        w.sizes@.len() == w.files.files@.len(),
        w.files.req_space == sizes_sum(w.sizes@),
        forall|f: Seq<char>, p: Seq<char>|
            #![trigger strs_view(w.files.files@).contains(f), w.libs@[f].contains(p)]
            strs_view(w.files.files@).contains(f) && w.libs@[f].contains(p) ==> strs_view(
                w.files.files@,
            ).contains(p),
{
    let todo = strs_view(w.todo@);
    assert(todo.len() == 0);
    assert forall|q: Seq<char>| !todo.contains(q) by {}
}

} // verus!
