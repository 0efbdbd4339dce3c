//! The mounts of block devices, as `/etc/mtab` lists them.
use vstd::prelude::*;

use crate::common::{path_comps, path_eq};
use crate::migrator::common::mig_error::{MigError, MigErrorKind};
use crate::text::{
    is_prefix, lines, split_lines, split_ws, starts_with, str_chars, string_from_chars, view_all,
    words,
};

verus! {

/// Where a device is mounted, and with which file system.
#[derive(Debug)]
pub struct Mount {
    pub mountpoint: String,
    pub fs_type: String,
}

pub struct MountModel {
    pub mountpoint: Seq<char>,
    pub fs_type: Seq<char>,
}

impl View for Mount {
    type V = MountModel;

    open spec fn view(&self) -> MountModel {
        MountModel { mountpoint: self.mountpoint@, fs_type: self.fs_type@ }
    }
}

impl Mount {
    pub fn get_mountpoint(&self) -> (r: &str)
        ensures
            r@ == self.mountpoint@,
    {
        self.mountpoint.as_str()
    }

    pub fn get_fs_type(&self) -> (r: &str)
        ensures
            r@ == self.fs_type@,
    {
        self.fs_type.as_str()
    }

    /// A copy of the mount.
    pub fn duplicate(&self) -> (r: Mount)
        ensures
            r == *self,
    {
        Mount { mountpoint: self.mountpoint.clone(), fs_type: self.fs_type.clone() }
    }
}

/// The mounts by device path; paths are compared by their components, as
/// `Path` compares them.
#[derive(Debug)]
pub struct MountTab {
    pub entries: Vec<(String, Mount)>,
}

pub open spec fn tab_view(es: Seq<(String, Mount)>) -> Seq<(Seq<char>, MountModel)> {
    es.map_values(|e: (String, Mount)| (e.0@, e.1@))
}

impl View for MountTab {
    type V = Seq<(Seq<char>, MountModel)>;

    open spec fn view(&self) -> Seq<(Seq<char>, MountModel)> {
        tab_view(self.entries@)
    }
}

/// The first entry from `i` on whose path equals `k`.
pub open spec fn find_key(es: Seq<(Seq<char>, MountModel)>, k: Seq<char>, i: int) -> Option<int>
    decreases es.len() - i,
{
    if i < 0 || i >= es.len() {
        None
    } else if path_comps(es[i].0) == path_comps(k) {
        Some(i)
    } else {
        find_key(es, k, i + 1)
    }
}

pub proof fn lemma_find_key(es: Seq<(Seq<char>, MountModel)>, k: Seq<char>, i: int)
    ensures
        find_key(es, k, i) matches Some(j) ==> i <= j < es.len() && path_comps(es[j].0)
            == path_comps(k),
    decreases es.len() - i,
{
    if 0 <= i < es.len() && path_comps(es[i].0) != path_comps(k) {
        lemma_find_key(es, k, i + 1);
    }
}

/// `HashMap::insert`: the value of an equal path is replaced, its key kept;
/// a new path is added at the end.
pub open spec fn tab_insert(es: Seq<(Seq<char>, MountModel)>, k: Seq<char>, v: MountModel) -> Seq<
    (Seq<char>, MountModel),
> {
    match find_key(es, k, 0) {
        Some(i) => es.update(i, (es[i].0, v)),
        None => es.push((k, v)),
    }
}

/// `HashMap::get`.
pub open spec fn tab_get(es: Seq<(Seq<char>, MountModel)>, k: Seq<char>) -> Option<MountModel> {
    match find_key(es, k, 0) {
        Some(i) => Some(es[i].1),
        None => None,
    }
}

/// The mount table read line by line: a line of fewer than three words is an
/// error whose message was shown; a line for a device under `/dev/` enters
/// the device's mountpoint and file system type, other lines are passed over.
pub open spec fn mtab_fold(ls: Seq<Seq<char>>, es: Seq<(Seq<char>, MountModel)>) -> Result<
    Seq<(Seq<char>, MountModel)>,
    MigErrorKind,
>
    decreases ls.len(),
{
    if ls.len() == 0 {
        Ok(es)
    } else {
        let w = words(ls[0]);
        if w.len() < 3 {
            Err(MigErrorKind::Displayed)
        } else if is_prefix("/dev/"@, w[0]) {
            mtab_fold(
                ls.drop_first(),
                tab_insert(es, w[0], MountModel { mountpoint: w[1], fs_type: w[2] }),
            )
        } else {
            mtab_fold(ls.drop_first(), es)
        }
    }
}

impl MountTab {
    pub fn new() -> (r: MountTab)
        ensures
            r@ == Seq::<(Seq<char>, MountModel)>::empty(),
    {
        let r = MountTab { entries: Vec::new() };
        assert(r@ =~= Seq::<(Seq<char>, MountModel)>::empty());
        r
    }

    fn find(&self, key: &[char]) -> (r: Option<usize>)
        ensures
            r matches Some(i) ==> find_key(self@, key@, 0) == Some(i as int),
            r is None ==> find_key(self@, key@, 0) is None,
    {
        let mut i: usize = 0;
        while i < self.entries.len()
            invariant
                i <= self.entries@.len(),
                find_key(self@, key@, i as int) == find_key(self@, key@, 0),
            decreases self.entries@.len() - i,
        {
            let k = str_chars(self.entries[i].0.as_str());
            proof {
                assert(self@[i as int].0 == self.entries@[i as int].0@);
            }
            if path_eq(k.as_slice(), key) {
                return Some(i);
            }
            i = i + 1;
        }
        None
    }

    /// The mount of the device at `device_path`.
    pub fn get(&self, device_path: &str) -> (r: Option<&Mount>)
        ensures
            match tab_get(self@, device_path@) {
                Some(m) => r matches Some(x) && x@ == m,
                None => r is None,
            },
    {
        let k = str_chars(device_path);
        proof {
            lemma_find_key(self@, device_path@, 0);
        }
        match self.find(k.as_slice()) {
            Some(i) => {
                proof {
                    assert(self@[i as int].1 == self.entries@[i as int].1@);
                    assert(k@ == device_path@);
                    assert(tab_get(self@, device_path@) == Some(self.entries@[i as int].1@));
                }
                Some(&self.entries[i].1)
            },
            None => None,
        }
    }

    /// Enter the mount of the device at `device_path` (see `tab_insert`).
    pub fn insert(&mut self, device_path: String, mount: Mount)
        ensures
            final(self)@ == tab_insert(old(self)@, device_path@, mount@),
    {
        let k = str_chars(device_path.as_str());
        proof {
            lemma_find_key(self@, device_path@, 0);
        }
        let ghost old_view = self@;
        match self.find(k.as_slice()) {
            Some(i) => {
                let key = self.entries[i].0.clone();
                let ghost mv = mount@;
                self.entries.set(i, (key, mount));
                proof {
                    assert(self@ =~= old_view.update(i as int, (old_view[i as int].0, mv)));
                }
            },
            None => {
                let ghost mv = mount@;
                self.entries.push((device_path, mount));
                proof {
                    assert(self@ =~= old_view.push((device_path@, mv)));
                }
            },
        }
    }
}

impl Mount {
    /// The mounts of devices under `/dev/` that the text of `/etc/mtab` lists
    /// (see `mtab_fold`); a `Displayed` error where a line has fewer than three
    /// words.
    pub fn from_mtab(mtab: &str) -> (r: Result<MountTab, MigError>)
        ensures
            match mtab_fold(lines(mtab@), seq![]) {
                Ok(es) => r matches Ok(t) && t@ == es,
                Err(k) => r matches Err(e) && e.inner.kind == k,
            },
    {
        let text = str_chars(mtab);
        let ls = split_lines(text.as_slice());
        let dev = str_chars("/dev/");
        let mut mounts = MountTab::new();
        let mut i: usize = 0;
        proof {
            assert(view_all(ls@).skip(0) =~= view_all(ls@));
        }
        while i < ls.len()
            invariant
                i <= ls@.len(),
                view_all(ls@) == lines(mtab@),
                dev@ == "/dev/"@,
                mtab_fold(view_all(ls@).skip(i as int), mounts@) == mtab_fold(lines(mtab@), seq![]),
            decreases ls@.len() - i,
        {
            let ghost rest = view_all(ls@).skip(i as int);
            proof {
                assert(rest[0] == ls@[i as int]@);
                assert(rest.drop_first() =~= view_all(ls@).skip(i + 1));
            }
            let w = split_ws(ls[i].as_slice());
            if w.len() < 3 {
                return Err(MigError::displayed());
            }
            proof {
                assert(view_all(w@)[0] == w@[0]@);
                assert(view_all(w@)[1] == w@[1]@);
                assert(view_all(w@)[2] == w@[2]@);
            }
            if starts_with(w[0].as_slice(), dev.as_slice()) {
                let m = Mount {
                    mountpoint: string_from_chars(w[1].as_slice()),
                    fs_type: string_from_chars(w[2].as_slice()),
                };
                mounts.insert(string_from_chars(w[0].as_slice()), m);
            }
            i = i + 1;
        }
        Ok(mounts)
    }
}

} // verus!
