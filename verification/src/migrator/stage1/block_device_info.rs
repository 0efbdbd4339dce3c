//! The block devices of the running system, their partitions and mounts, and
//! which of them holds the root file system.
//!
//! What the system tells of its devices is read elsewhere: the number of the
//! root file system's device, `/etc/mtab`, and for each entry of `/sys/block`
//! its name, the text of its `dev` file, whether `/dev/<name>` exists, and the
//! same of its subdirectories. From that this module builds the device map.
use vstd::prelude::*;

pub mod block_device;
pub mod device;
pub mod mount;
pub mod partition;

use crate::common::{
    file_name, file_name_exec, path_append, path_append_spec, path_comps, path_eq, Error,
    ErrorKind,
};
use crate::migrator::stage1::lsblk_info::{is_supported_major, supported_major};
use crate::text::{
    all_digits, decimal, find_char, find_char_from, is_prefix, lemma_decimal_digits,
    lemma_parse_decimal, lemma_span, not_char_pred, parse_u64, parse_u64_spec, push_chars,
    slice_to_vec, starts_with, str_chars, string_from_chars, trim, trim_chars, u64_to_decimal,
};
use block_device::{BlockDevModel, BlockDevice};
use device::{Device, DeviceModel};
use mount::{tab_get, Mount, MountModel, MountTab};
use partition::{Partition, PartitionInfo, PartitionInfoModel, PartitionModel};

verus! {

// ---------------------------------------------------------------------------
// Device numbers
// ---------------------------------------------------------------------------

/// A device's major and minor number.
#[derive(Debug, Clone, Copy, PartialEq, Eq, Structural)]
pub struct DeviceNum {
    pub major: u64,
    pub minor: u64,
}

/// The major number in a Linux device number: bits 8 to 19 and 44 to 63.
pub open spec fn major_of(dev: u64) -> u64 {
    ((dev >> 32u64) & 0xffff_f000u64) | ((dev >> 8u64) & 0xfffu64)
}

/// The minor number in a Linux device number: bits 0 to 7 and 20 to 43.
pub open spec fn minor_of(dev: u64) -> u64 {
    ((dev >> 12u64) & 0xffff_ff00u64) | (dev & 0xffu64)
}

/// Calls `nix::sys::stat::major`, which for Linux takes bits 8 to 19 and 44
/// to 63 of the device number.
#[verifier::external_body]
fn sys_major(dev: u64) -> (r: u64)
    ensures
        r == major_of(dev),
{
    nix::sys::stat::major(dev)
}

/// Calls `nix::sys::stat::minor`, which for Linux takes bits 0 to 7 and 20 to
/// 43 of the device number.
#[verifier::external_body]
fn sys_minor(dev: u64) -> (r: u64)
    ensures
        r == minor_of(dev),
{
    nix::sys::stat::minor(dev)
}

/// `major:minor`, both in decimal.
pub open spec fn devnum_text(d: DeviceNum) -> Seq<char> {
    decimal(d.major as nat) + seq![':'] + decimal(d.minor as nat)
}

/// A device number as `/sys/block/<dev>/dev` writes it: the text, trimmed, is
/// `major:minor` in decimal digits; an `InvState` error where it is not, an
/// `Upstream` error where a number does not fit in 64 bits.
pub open spec fn devnum_spec(s: Seq<char>) -> Result<DeviceNum, ErrorKind> {
    let t = trim(s);
    let k = find_char(t, ':');
    let maj = t.take(k as int);
    let min = t.skip(k as int + 1);
    if k < t.len() && maj.len() > 0 && all_digits(maj) && min.len() > 0 && all_digits(min) {
        match (parse_u64_spec(maj), parse_u64_spec(min)) {
            (Some(a), Some(b)) => Ok(DeviceNum { major: a, minor: b }),
            _ => Err(ErrorKind::Upstream),
        }
    } else {
        Err(ErrorKind::InvState)
    }
}

fn all_digits_exec(s: &[char]) -> (r: bool)
    ensures
        r == all_digits(s@),
{
    let mut i: usize = 0;
    while i < s.len()
        invariant
            i <= s@.len(),
            forall|j: int| 0 <= j < i ==> crate::text::is_digit(#[trigger] s@[j]),
        decreases s@.len() - i,
    {
        if s[i] < '0' || s[i] > '9' {
            return false;
        }
        i = i + 1;
    }
    true
}

impl DeviceNum {
    /// The major and minor number of a Linux device number.
    pub fn new(raw_num: u64) -> (r: DeviceNum)
        ensures
            r.major == major_of(raw_num),
            r.minor == minor_of(raw_num),
    {
        DeviceNum { major: sys_major(raw_num), minor: sys_minor(raw_num) }
    }

    pub fn major(&self) -> (r: u64)
        ensures
            r == self.major,
    {
        self.major
    }

    pub fn minor(&self) -> (r: u64)
        ensures
            r == self.minor,
    {
        self.minor
    }

    /// `major:minor`, as the number is displayed.
    pub fn to_display_string(&self) -> (r: String)
        ensures
            r@ == devnum_text(*self),
    {
        let mut v = u64_to_decimal(self.major);
        v.push(':');
        let m = u64_to_decimal(self.minor);
        push_chars(&mut v, m.as_slice());
        string_from_chars(v.as_slice())
    }

    /// Read a device number (see `devnum_spec`).
    pub fn from_str(s: &str) -> (r: Result<DeviceNum, Error>)
        ensures
            match devnum_spec(s@) {
                Ok(d) => r == Ok::<DeviceNum, Error>(d),
                Err(k) => r matches Err(e) && e.kind == k,
            },
    {
        let c = str_chars(s);
        let t = trim_chars(c.as_slice());
        let k = find_char_from(t.as_slice(), 0, ':');
        proof {
            assert(t@.skip(0) =~= t@);
        }
        if k < t.len() {
            let maj = slice_to_vec(t.as_slice(), 0, k);
            let min = slice_to_vec(t.as_slice(), k + 1, t.len());
            proof {
                assert(maj@ =~= t@.take(k as int));
                assert(min@ =~= t@.skip(k as int + 1));
            }
            if maj.len() > 0 && all_digits_exec(maj.as_slice()) && min.len() > 0
                && all_digits_exec(min.as_slice()) {
                let a = match parse_u64(maj.as_slice()) {
                    Some(a) => a,
                    None => {
                        return Err(
                            Error::with_context(
                                ErrorKind::Upstream,
                                "Failed to parse device major number",
                            ),
                        );
                    },
                };
                let b = match parse_u64(min.as_slice()) {
                    Some(b) => b,
                    None => {
                        return Err(
                            Error::with_context(
                                ErrorKind::Upstream,
                                "Failed to parse device minor number",
                            ),
                        );
                    },
                };
                return Ok(DeviceNum { major: a, minor: b });
            }
        }
        Err(
            Error::with_context(
                ErrorKind::InvState,
                "Failed to parse block device major:minor numbers",
            ),
        )
    }
}

/// A device number read back from its display is the number itself.
pub proof fn law_devnum_roundtrip(d: DeviceNum)
    ensures
        devnum_spec(devnum_text(d)) == Ok::<DeviceNum, ErrorKind>(d),
{
    let a = decimal(d.major as nat);
    let b = decimal(d.minor as nat);
    let s = devnum_text(d);
    lemma_decimal_digits(d.major as nat);
    lemma_decimal_digits(d.minor as nat);
    lemma_parse_decimal(d.major);
    lemma_parse_decimal(d.minor);
    assert(s.len() > 0 && !crate::text::is_ws(s[0])) by {
        assert(s[0] == a[0]);
        assert(crate::text::is_digit(a[0]));
    }
    assert(!crate::text::is_ws(s.last())) by {
        assert(s.last() == b.last());
        assert(crate::text::is_digit(b[b.len() - 1]));
    }
    crate::text::lemma_trim_unchanged(s);
    assert forall|i: int| 0 <= i < a.len() implies #[trigger] not_char_pred(':')(s[i]) by {
        assert(s[i] == a[i]);
        assert(crate::text::is_digit(a[i]));
    }
    crate::text::lemma_span_unique(s, not_char_pred(':'), a.len() as int);
    assert(s.take(a.len() as int) =~= a);
    assert(s.skip(a.len() as int + 1) =~= b);
}

// ---------------------------------------------------------------------------
// What the system lists
// ---------------------------------------------------------------------------

/// A subdirectory of a `/sys/block` entry: its name, and the text of its
/// `dev` file where it could be read.
#[derive(Debug)]
pub struct SysBlockPartition {
    pub name: String,
    pub dev: Option<String>,
}

/// An entry of `/sys/block`: its name, the text of its `dev` file where it
/// could be read, whether `/dev/<name>` exists, and its subdirectories.
#[derive(Debug)]
pub struct SysBlockDevice {
    pub name: String,
    pub dev: Option<String>,
    pub dev_exists: bool,
    pub partitions: Vec<SysBlockPartition>,
}

pub struct SysPartModel {
    pub name: Seq<char>,
    pub dev: Option<Seq<char>>,
}

pub struct SysDevModel {
    pub name: Seq<char>,
    pub dev: Option<Seq<char>>,
    pub dev_exists: bool,
    pub partitions: Seq<SysPartModel>,
}

impl View for SysBlockPartition {
    type V = SysPartModel;

    open spec fn view(&self) -> SysPartModel {
        SysPartModel { name: self.name@, dev: crate::common::options::opt_view(self.dev) }
    }
}

pub open spec fn sys_parts_view(v: Seq<SysBlockPartition>) -> Seq<SysPartModel> {
    v.map_values(|p: SysBlockPartition| p@)
}

impl View for SysBlockDevice {
    type V = SysDevModel;

    open spec fn view(&self) -> SysDevModel {
        SysDevModel {
            name: self.name@,
            dev: crate::common::options::opt_view(self.dev),
            dev_exists: self.dev_exists,
            partitions: sys_parts_view(self.partitions@),
        }
    }
}

pub open spec fn sys_devs_view(v: Seq<SysBlockDevice>) -> Seq<SysDevModel> {
    v.map_values(|d: SysBlockDevice| d@)
}

// ---------------------------------------------------------------------------
// The device map
// ---------------------------------------------------------------------------

/// The block devices by device path; paths are compared by their components.
#[derive(Debug)]
pub struct DeviceMap {
    pub entries: Vec<(String, BlockDevice)>,
}

pub open spec fn dmap_view(es: Seq<(String, BlockDevice)>) -> Seq<(Seq<char>, BlockDevModel)> {
    es.map_values(|e: (String, BlockDevice)| (e.0@, e.1@))
}

impl View for DeviceMap {
    type V = Seq<(Seq<char>, BlockDevModel)>;

    open spec fn view(&self) -> Seq<(Seq<char>, BlockDevModel)> {
        dmap_view(self.entries@)
    }
}

/// The first entry from `i` on whose path equals `k`.
pub open spec fn find_path(es: Seq<(Seq<char>, BlockDevModel)>, k: Seq<char>, i: int) -> Option<int>
    decreases es.len() - i,
{
    if i < 0 || i >= es.len() {
        None
    } else if path_comps(es[i].0) == path_comps(k) {
        Some(i)
    } else {
        find_path(es, k, i + 1)
    }
}

pub proof fn lemma_find_path(es: Seq<(Seq<char>, BlockDevModel)>, k: Seq<char>, i: int)
    ensures
        find_path(es, k, i) matches Some(j) ==> i <= j < es.len() && path_comps(es[j].0)
            == path_comps(k),
        0 <= i && find_path(es, k, i) is None ==> forall|j: int|
            i <= j < es.len() ==> path_comps(#[trigger] es[j].0) != path_comps(k),
    decreases es.len() - i,
{
    if 0 <= i < es.len() && path_comps(es[i].0) != path_comps(k) {
        lemma_find_path(es, k, i + 1);
    }
}

/// `HashMap::insert`: the value of an equal path is replaced, its key kept; a
/// new path is added at the end.
pub open spec fn dmap_insert(es: Seq<(Seq<char>, BlockDevModel)>, k: Seq<char>, v: BlockDevModel) -> Seq<
    (Seq<char>, BlockDevModel),
> {
    match find_path(es, k, 0) {
        Some(i) => es.update(i, (es[i].0, v)),
        None => es.push((k, v)),
    }
}

impl DeviceMap {
    pub fn new() -> (r: DeviceMap)
        ensures
            r@ == Seq::<(Seq<char>, BlockDevModel)>::empty(),
    {
        let r = DeviceMap { entries: Vec::new() };
        assert(r@ =~= Seq::<(Seq<char>, BlockDevModel)>::empty());
        r
    }

    fn find(&self, key: &[char]) -> (r: Option<usize>)
        ensures
            r matches Some(i) ==> find_path(self@, key@, 0) == Some(i as int),
            r is None ==> find_path(self@, key@, 0) is None,
    {
        let mut i: usize = 0;
        while i < self.entries.len()
            invariant
                i <= self.entries@.len(),
                find_path(self@, key@, i as int) == find_path(self@, key@, 0),
            decreases self.entries@.len() - i,
        {
            let k = str_chars(self.entries[i].0.as_str());
            proof {
                assert(self@[i as int].0 == self.entries@[i as int].0@);
            }
            if path_eq(k.as_slice(), key) {
                return Some(i);
            }
            i = i + 1;
        }
        None
    }

    /// The device at `path`.
    pub fn get(&self, path: &str) -> (r: Option<&BlockDevice>)
        ensures
            match find_path(self@, path@, 0) {
                Some(i) => r matches Some(d) && d@ == self@[i].1,
                None => r is None,
            },
    {
        let k = str_chars(path);
        proof {
            lemma_find_path(self@, path@, 0);
        }
        match self.find(k.as_slice()) {
            Some(i) => {
                proof {
                    assert(self@[i as int].1 == self.entries@[i as int].1@);
                }
                Some(&self.entries[i].1)
            },
            None => None,
        }
    }

    /// Enter the device at `path` (see `dmap_insert`).
    pub fn insert(&mut self, path: String, device: BlockDevice)
        ensures
            final(self)@ == dmap_insert(old(self)@, path@, device@),
    {
        let k = str_chars(path.as_str());
        proof {
            lemma_find_path(self@, path@, 0);
        }
        let ghost old_view = self@;
        let ghost dv = device@;
        match self.find(k.as_slice()) {
            Some(i) => {
                let key = self.entries[i].0.clone();
                self.entries.set(i, (key, device));
                proof {
                    assert(self@ =~= old_view.update(i as int, (old_view[i as int].0, dv)));
                }
            },
            None => {
                self.entries.push((path, device));
                proof {
                    assert(self@ =~= old_view.push((path@, dv)));
                }
            },
        }
    }

    /// Record what `blkid` told of the partition at `path`; a whole device,
    /// or a path not in the map, is left alone (see `dmap_set_info`).
    pub fn set_partition_info(&mut self, path: &str, info: PartitionInfo) -> (r: bool)
        ensures
            final(self)@ == dmap_set_info(old(self)@, path@, info@),
            r == (find_path(old(self)@, path@, 0) matches Some(i) && old(self)@[i].1 is Partition),
    {
        let k = str_chars(path);
        proof {
            lemma_find_path(self@, path@, 0);
        }
        let ghost old_view = self@;
        let ghost iv = info@;
        match self.find(k.as_slice()) {
            Some(i) => {
                let updated = match &self.entries[i].1 {
                    BlockDevice::Partition(p) => {
                        let mut q = p.duplicate();
                        q.partition_info = Some(info);
                        Some(q)
                    },
                    BlockDevice::Device(_) => None,
                };
                match updated {
                    Some(q) => {
                        let key = self.entries[i].0.clone();
                        proof {
                            assert(old_view[i as int].1 == self.entries@[i as int].1@);
                        }
                        self.entries.set(i, (key, BlockDevice::Partition(q)));
                        proof {
                            assert(self@ =~= dmap_set_info(old_view, path@, iv));
                        }
                        true
                    },
                    None => {
                        proof {
                            assert(old_view[i as int].1 == self.entries@[i as int].1@);
                        }
                        false
                    },
                }
            },
            None => false,
        }
    }
}

/// The map with the partition at `k` holding `info` from `blkid`; unchanged
/// where `k` is a whole device or not in the map.
pub open spec fn dmap_set_info(
    es: Seq<(Seq<char>, BlockDevModel)>,
    k: Seq<char>,
    info: PartitionInfoModel,
) -> Seq<(Seq<char>, BlockDevModel)> {
    match find_path(es, k, 0) {
        Some(i) => match es[i].1 {
            BlockDevModel::Partition(pm) => es.update(
                i,
                (es[i].0, BlockDevModel::Partition(PartitionModel { partition_info: Some(info), ..pm })),
            ),
            BlockDevModel::Device(_) => es,
        },
        None => es,
    }
}

// ---------------------------------------------------------------------------
// Building the map
// ---------------------------------------------------------------------------

/// The number of the root file system's device.
pub open spec fn root_num(raw: u64) -> DeviceNum {
    DeviceNum { major: major_of(raw), minor: minor_of(raw) }
}

/// The mount of the device at `path` with number `num`: its own entry in the
/// mount table, else, for the root file system's device, that of
/// `/dev/root`.
pub open spec fn mounted_at(
    mounts: Seq<(Seq<char>, MountModel)>,
    path: Seq<char>,
    num: DeviceNum,
    root: DeviceNum,
) -> Option<MountModel> {
    match tab_get(mounts, path) {
        Some(m) => Some(m),
        None => if num == root {
            tab_get(mounts, "/dev/root"@)
        } else {
            None
        },
    }
}

/// The partitions of device `dev`, entered into `map`: subdirectories whose
/// name does not begin with the device's name are passed over; a partition
/// whose `dev` file could not be read is an `Upstream` error.
pub open spec fn parts_fold(
    ps: Seq<SysPartModel>,
    dev: DeviceModel,
    mounts: Seq<(Seq<char>, MountModel)>,
    root: DeviceNum,
    map: Seq<(Seq<char>, BlockDevModel)>,
) -> Result<Seq<(Seq<char>, BlockDevModel)>, ErrorKind>
    decreases ps.len(),
{
    if ps.len() == 0 {
        Ok(map)
    } else {
        let p = ps[0];
        if !is_prefix(dev.name, p.name) {
            parts_fold(ps.drop_first(), dev, mounts, root, map)
        } else {
            match p.dev {
                None => Err(ErrorKind::Upstream),
                Some(t) => match devnum_spec(t) {
                    Err(k) => Err(k),
                    Ok(num) => {
                        let path = path_append_spec("/dev"@, p.name);
                        parts_fold(
                            ps.drop_first(),
                            dev,
                            mounts,
                            root,
                            dmap_insert(
                                map,
                                path,
                                BlockDevModel::Partition(
                                    PartitionModel {
                                        name: p.name,
                                        device_num: num,
                                        mounted: mounted_at(mounts, path, num, root),
                                        parent: dev,
                                        partition_info: None,
                                    },
                                ),
                            ),
                        )
                    },
                },
            }
        }
    }
}

/// The devices of `/sys/block`, entered into `map` with their partitions
/// before them: an entry whose `dev` file could not be read is an `Upstream`
/// error; devices of unsupported majors are passed over; a supported device
/// without its `/dev` node is a `DeviceNotFound` error.
pub open spec fn devs_fold(
    es: Seq<SysDevModel>,
    mounts: Seq<(Seq<char>, MountModel)>,
    root: DeviceNum,
    map: Seq<(Seq<char>, BlockDevModel)>,
) -> Result<Seq<(Seq<char>, BlockDevModel)>, ErrorKind>
    decreases es.len(),
{
    if es.len() == 0 {
        Ok(map)
    } else {
        let e = es[0];
        match e.dev {
            None => Err(ErrorKind::Upstream),
            Some(t) => match devnum_spec(t) {
                Err(k) => Err(k),
                Ok(num) => if !is_supported_major(num.major as nat) {
                    devs_fold(es.drop_first(), mounts, root, map)
                } else if !e.dev_exists {
                    Err(ErrorKind::DeviceNotFound)
                } else {
                    let path = path_append_spec("/dev"@, e.name);
                    let dev = DeviceModel {
                        name: e.name,
                        device_num: num,
                        mounted: mounted_at(mounts, path, num, root),
                    };
                    match parts_fold(e.partitions, dev, mounts, root, map) {
                        Err(k) => Err(k),
                        Ok(m2) => devs_fold(
                            es.drop_first(),
                            mounts,
                            root,
                            dmap_insert(m2, path, BlockDevModel::Device(dev)),
                        ),
                    }
                },
            },
        }
    }
}

pub open spec fn model_num(d: BlockDevModel) -> DeviceNum {
    match d {
        BlockDevModel::Device(x) => x.device_num,
        BlockDevModel::Partition(x) => x.device_num,
    }
}

/// The first entry of the map, from `i` on, with the number `num`.
pub open spec fn find_num(map: Seq<(Seq<char>, BlockDevModel)>, num: DeviceNum, i: int) -> Option<int>
    decreases map.len() - i,
{
    if i < 0 || i >= map.len() {
        None
    } else if model_num(map[i].1) == num {
        Some(i)
    } else {
        find_num(map, num, i + 1)
    }
}

pub proof fn lemma_find_num(map: Seq<(Seq<char>, BlockDevModel)>, num: DeviceNum, i: int)
    ensures
        find_num(map, num, i) matches Some(j) ==> i <= j < map.len() && model_num(map[j].1) == num,
    decreases map.len() - i,
{
    if 0 <= i < map.len() && model_num(map[i].1) != num {
        lemma_find_num(map, num, i + 1);
    }
}

/// The partition that holds the root file system: the first entry with the
/// root's number, which must be a partition; an `InvState` error otherwise.
pub open spec fn root_pick(map: Seq<(Seq<char>, BlockDevModel)>, root: DeviceNum) -> Result<
    PartitionModel,
    ErrorKind,
> {
    match find_num(map, root, 0) {
        Some(i) => match map[i].1 {
            BlockDevModel::Partition(p) => Ok(p),
            BlockDevModel::Device(_) => Err(ErrorKind::InvState),
        },
        None => Err(ErrorKind::InvState),
    }
}

// ---------------------------------------------------------------------------
// What holds of the map
// ---------------------------------------------------------------------------

pub open spec fn model_name(d: BlockDevModel) -> Seq<char> {
    match d {
        BlockDevModel::Device(x) => x.name,
        BlockDevModel::Partition(x) => x.name,
    }
}

/// The device node of a device or partition called `name`.
pub open spec fn dev_node(name: Seq<char>) -> Seq<char> {
    path_append_spec("/dev"@, name)
}

/// The map holds a key equal to `k`.
pub open spec fn has_path(map: Seq<(Seq<char>, BlockDevModel)>, k: Seq<char>) -> bool {
    find_path(map, k, 0) is Some
}

/// An entry of the map is as the map was built: its key is the device node
/// of what it holds; a device has a supported major number; a partition's
/// name begins with its device's name, that device has a supported major,
/// and, unless it is `pending`, the device is in the map under its node.
pub open spec fn entry_ok(
    map: Seq<(Seq<char>, BlockDevModel)>,
    e: (Seq<char>, BlockDevModel),
    pending: Option<DeviceModel>,
) -> bool {
    &&& path_comps(e.0) == path_comps(dev_node(model_name(e.1)))
    &&& match e.1 {
        BlockDevModel::Device(d) => is_supported_major(d.device_num.major as nat),
        BlockDevModel::Partition(p) => {
            &&& is_prefix(p.parent.name, p.name)
            &&& is_supported_major(p.parent.device_num.major as nat)
            &&& (pending != Some(p.parent) ==> has_path(map, dev_node(p.parent.name)))
        },
    }
}

/// No two keys of the map are equal paths, as in a map by path.
pub open spec fn keys_distinct(map: Seq<(Seq<char>, BlockDevModel)>) -> bool {
    forall|i: int, j: int|
        0 <= i < j < map.len() ==> path_comps(#[trigger] map[i].0) != path_comps(#[trigger] map[j].0)
}

pub open spec fn dmap_ok_pending(map: Seq<(Seq<char>, BlockDevModel)>, pending: Option<DeviceModel>) -> bool {
    &&& keys_distinct(map)
    &&& forall|i: int| 0 <= i < map.len() ==> entry_ok(map, #[trigger] map[i], pending)
}

/// No two keys are equal paths, and every entry of the map is as the map was
/// built (see `entry_ok`), with no device left to be entered.
pub open spec fn dmap_ok(map: Seq<(Seq<char>, BlockDevModel)>) -> bool {
    dmap_ok_pending(map, None)
}

proof fn lemma_has_path_at(map: Seq<(Seq<char>, BlockDevModel)>, k: Seq<char>, j: int)
    requires
        0 <= j < map.len(),
        path_comps(map[j].0) == path_comps(k),
    ensures
        has_path(map, k),
{
    lemma_find_path(map, k, 0);
}

/// Entering a device keeps every key, and holds the key entered.
proof fn lemma_insert_keys(
    map: Seq<(Seq<char>, BlockDevModel)>,
    k: Seq<char>,
    v: BlockDevModel,
    k2: Seq<char>,
)
    ensures
        has_path(map, k2) ==> has_path(dmap_insert(map, k, v), k2),
        has_path(dmap_insert(map, k, v), k),
{
    lemma_find_path(map, k, 0);
    lemma_find_path(map, k2, 0);
    let m2 = dmap_insert(map, k, v);
    if let Some(j) = find_path(map, k2, 0) {
        assert(m2[j].0 == map[j].0);
        lemma_has_path_at(m2, k2, j);
    }
    match find_path(map, k, 0) {
        Some(i) => {
            assert(m2[i].0 == map[i].0);
            lemma_has_path_at(m2, k, i);
        },
        None => {
            assert(m2[map.len() as int].0 == k);
            lemma_has_path_at(m2, k, map.len() as int);
        },
    }
}

/// Entering a device or partition under its node keeps the map as built.
proof fn lemma_insert_ok(
    map: Seq<(Seq<char>, BlockDevModel)>,
    v: BlockDevModel,
    pending: Option<DeviceModel>,
)
    requires
        dmap_ok_pending(map, pending),
        entry_ok(dmap_insert(map, dev_node(model_name(v)), v), (dev_node(model_name(v)), v), pending),
    ensures
        dmap_ok_pending(dmap_insert(map, dev_node(model_name(v)), v), pending),
{
    let k = dev_node(model_name(v));
    let m2 = dmap_insert(map, k, v);
    lemma_find_path(map, k, 0);
    assert forall|i: int, j: int| 0 <= i < j < m2.len() implies path_comps(#[trigger] m2[i].0)
        != path_comps(#[trigger] m2[j].0) by {
        if j < map.len() {
            assert(m2[i].0 == map[i].0 && m2[j].0 == map[j].0);
        } else {
            assert(m2[i].0 == map[i].0);
            assert(m2[j].0 == k);
        }
    }
    assert forall|i: int| 0 <= i < m2.len() implies entry_ok(m2, #[trigger] m2[i], pending) by {
        if i < map.len() && m2[i] == map[i] {
            assert(entry_ok(map, map[i], pending));
            if let BlockDevModel::Partition(p) = map[i].1 {
                lemma_insert_keys(map, k, v, dev_node(p.parent.name));
            }
        } else {
            if let BlockDevModel::Partition(p) = v {
                lemma_insert_keys(map, k, v, dev_node(p.parent.name));
            }
        }
    }
}

/// Once the pending device is in the map, nothing is pending.
proof fn lemma_settle(map: Seq<(Seq<char>, BlockDevModel)>, dev: DeviceModel)
    requires
        dmap_ok_pending(map, Some(dev)),
        has_path(map, dev_node(dev.name)),
    ensures
        dmap_ok(map),
{
    assert forall|i: int| 0 <= i < map.len() implies entry_ok(map, #[trigger] map[i], None) by {
        assert(entry_ok(map, map[i], Some(dev)));
    }
}

/// Entering the partitions of a device with a supported major keeps the
/// map as built, with that device pending.
proof fn lemma_parts_fold_ok(
    ps: Seq<SysPartModel>,
    dev: DeviceModel,
    mounts: Seq<(Seq<char>, MountModel)>,
    root: DeviceNum,
    map: Seq<(Seq<char>, BlockDevModel)>,
)
    requires
        dmap_ok_pending(map, Some(dev)),
        is_supported_major(dev.device_num.major as nat),
    ensures
        parts_fold(ps, dev, mounts, root, map) matches Ok(m) ==> dmap_ok_pending(m, Some(dev)),
    decreases ps.len(),
{
    if ps.len() > 0 {
        let p = ps[0];
        if !is_prefix(dev.name, p.name) {
            lemma_parts_fold_ok(ps.drop_first(), dev, mounts, root, map);
        } else if let Some(t) = p.dev {
            if let Ok(num) = devnum_spec(t) {
                let path = path_append_spec("/dev"@, p.name);
                let v = BlockDevModel::Partition(
                    PartitionModel {
                        name: p.name,
                        device_num: num,
                        mounted: mounted_at(mounts, path, num, root),
                        parent: dev,
                        partition_info: None,
                    },
                );
                assert(model_name(v) == p.name);
                lemma_insert_ok(map, v, Some(dev));
                lemma_parts_fold_ok(ps.drop_first(), dev, mounts, root, dmap_insert(map, path, v));
            }
        }
    }
}

proof fn lemma_devs_fold_ok(
    es: Seq<SysDevModel>,
    mounts: Seq<(Seq<char>, MountModel)>,
    root: DeviceNum,
    map: Seq<(Seq<char>, BlockDevModel)>,
)
    requires
        dmap_ok(map),
    ensures
        devs_fold(es, mounts, root, map) matches Ok(m) ==> dmap_ok(m),
    decreases es.len(),
{
    if es.len() > 0 {
        let e = es[0];
        if let Some(t) = e.dev {
            if let Ok(num) = devnum_spec(t) {
                if !is_supported_major(num.major as nat) {
                    lemma_devs_fold_ok(es.drop_first(), mounts, root, map);
                } else if e.dev_exists {
                    let path = path_append_spec("/dev"@, e.name);
                    let dev = DeviceModel {
                        name: e.name,
                        device_num: num,
                        mounted: mounted_at(mounts, path, num, root),
                    };
                    assert forall|i: int| 0 <= i < map.len() implies entry_ok(
                        map,
                        #[trigger] map[i],
                        Some(dev),
                    ) by {
                        assert(entry_ok(map, map[i], None));
                    }
                    lemma_parts_fold_ok(e.partitions, dev, mounts, root, map);
                    if let Ok(m2) = parts_fold(e.partitions, dev, mounts, root, map) {
                        let v = BlockDevModel::Device(dev);
                        assert(model_name(v) == e.name);
                        lemma_insert_ok(m2, v, Some(dev));
                        lemma_insert_keys(m2, path, v, path);
                        lemma_settle(dmap_insert(m2, path, v), dev);
                        lemma_devs_fold_ok(es.drop_first(), mounts, root, dmap_insert(m2, path, v));
                    }
                }
            }
        }
    }
}

/// The device map that `BlockDeviceInfo::new` builds is consistent: no two
/// keys are equal paths; every key is the device node of what it holds; every device has a supported
/// major number; every partition's name begins with its device's name, and
/// that device has a supported major and is in the map under its node.
pub proof fn law_device_map_consistent(
    es: Seq<SysDevModel>,
    mounts: Seq<(Seq<char>, MountModel)>,
    root: DeviceNum,
)
    ensures
        devs_fold(es, mounts, root, seq![]) matches Ok(map) ==> dmap_ok(map),
{
    assert(dmap_ok(Seq::<(Seq<char>, BlockDevModel)>::empty()));
    lemma_devs_fold_ok(es, mounts, root, seq![]);
}

/// The root partition and device that `BlockDeviceInfo::new` finds: the
/// root partition has the root file system's number and is in the map under
/// its node; the root device is the partition's device, has a supported
/// major, its name begins the partition's name, and it is in the map under
/// its node.
pub proof fn law_root_in_map(es: Seq<SysDevModel>, mounts: Seq<(Seq<char>, MountModel)>, root: DeviceNum)
    ensures
        devs_fold(es, mounts, root, seq![]) matches Ok(map) ==> (root_pick(map, root) matches Ok(p)
            ==> {
            &&& p.device_num == root
            &&& has_path(map, dev_node(p.name))
            &&& is_prefix(p.parent.name, p.name)
            &&& is_supported_major(p.parent.device_num.major as nat)
            &&& has_path(map, dev_node(p.parent.name))
        }),
{
    law_device_map_consistent(es, mounts, root);
    if let Ok(map) = devs_fold(es, mounts, root, seq![]) {
        lemma_find_num(map, root, 0);
        if let Some(i) = find_num(map, root, 0) {
            if let BlockDevModel::Partition(p) = map[i].1 {
                assert(entry_ok(map, map[i], None));
                lemma_has_path_at(map, dev_node(p.name), i);
            }
        }
    }
}

/// The block devices and partitions of the system, and the device and
/// partition of the root file system.
#[derive(Debug)]
pub struct BlockDeviceInfo {
    pub root_device: BlockDevice,
    pub root_partition: Option<BlockDevice>,
    pub devices: DeviceMap,
}

fn mounted_at_exec(mounts: &MountTab, path: &str, num: DeviceNum, root: DeviceNum) -> (r: Option<
    Mount,
>)
    ensures
        device::opt_mount(r) == mounted_at(mounts@, path@, num, root),
{
    match mounts.get(path) {
        Some(m) => Some(m.duplicate()),
        None => if num == root {
            match mounts.get("/dev/root") {
                Some(m) => Some(m.duplicate()),
                None => None,
            }
        } else {
            None
        },
    }
}

fn devnum_of(dev: &Option<String>) -> (r: Result<DeviceNum, Error>)
    ensures
        match crate::common::options::opt_view(*dev) {
            None => r matches Err(e) && e.kind == ErrorKind::Upstream,
            Some(t) => match devnum_spec(t) {
                Ok(d) => r == Ok::<DeviceNum, Error>(d),
                Err(k) => r matches Err(e) && e.kind == k,
            },
        },
{
    match dev {
        None => Err(Error::with_context(ErrorKind::Upstream, "Failed to read device number file")),
        Some(t) => DeviceNum::from_str(t.as_str()),
    }
}

fn read_partitions(
    device: &Device,
    parts: &Vec<SysBlockPartition>,
    mounts: &MountTab,
    root: DeviceNum,
    map: &mut DeviceMap,
) -> (r: Result<(), Error>)
    ensures
        match parts_fold(sys_parts_view(parts@), device@, mounts@, root, old(map)@) {
            Ok(m) => r is Ok && final(map)@ == m,
            Err(k) => r matches Err(e) && e.kind == k,
        },
{
    let ghost ps = sys_parts_view(parts@);
    let ghost target = parts_fold(ps, device@, mounts@, root, old(map)@);
    let mut i: usize = 0;
    proof {
        assert(ps.skip(0) =~= ps);
    }
    while i < parts.len()
        invariant
            i <= parts@.len(),
            ps == sys_parts_view(parts@),
            target == parts_fold(ps, device@, mounts@, root, old(map)@),
            parts_fold(ps.skip(i as int), device@, mounts@, root, map@) == target,
        decreases parts@.len() - i,
    {
        let p = &parts[i];
        proof {
            assert(ps.skip(i as int)[0] == p@);
            assert(ps.skip(i as int).drop_first() =~= ps.skip(i + 1));
        }
        let pn = str_chars(p.name.as_str());
        let dn = str_chars(device.name.as_str());
        if starts_with(pn.as_slice(), dn.as_slice()) {
            let num = devnum_of(&p.dev)?;
            let path = path_append("/dev", p.name.as_str());
            let mounted = mounted_at_exec(mounts, path.as_str(), num, root);
            let part = Partition {
                name: p.name.clone(),
                device_num: num,
                mounted,
                parent: device.duplicate(),
                partition_info: None,
            };
            map.insert(path, BlockDevice::Partition(part));
        }
        i = i + 1;
    }
    proof {
        assert(ps.skip(i as int) =~= Seq::<SysPartModel>::empty());
    }
    Ok(())
}

impl BlockDeviceInfo {
    /// Build the device map from the root file system's device number, the
    /// mount table and the entries of `/sys/block` (see `devs_fold`), and find
    /// the root partition and its device (see `root_pick`).
    pub fn new(root_dev: u64, mounts: &MountTab, entries: &Vec<SysBlockDevice>) -> (r: Result<
        BlockDeviceInfo,
        Error,
    >)
        ensures
            match devs_fold(sys_devs_view(entries@), mounts@, root_num(root_dev), seq![]) {
                Err(k) => r matches Err(e) && e.kind == k,
                Ok(map) => match root_pick(map, root_num(root_dev)) {
                    Err(k) => r matches Err(e) && e.kind == k,
                    Ok(p) => r matches Ok(info) && info.devices@ == map && info.root_device@
                        == BlockDevModel::Device(p.parent) && (info.root_partition matches Some(
                        rp) && rp@ == BlockDevModel::Partition(p)),
                },
            },
    {
        let root = DeviceNum::new(root_dev);
        let ghost es = sys_devs_view(entries@);
        let ghost target = devs_fold(es, mounts@, root, seq![]);
        let mut map = DeviceMap::new();
        let mut i: usize = 0;
        proof {
            assert(es.skip(0) =~= es);
        }
        while i < entries.len()
            invariant
                i <= entries@.len(),
                es == sys_devs_view(entries@),
                root == root_num(root_dev),
                target == devs_fold(es, mounts@, root, seq![]),
                devs_fold(es.skip(i as int), mounts@, root, map@) == target,
            decreases entries@.len() - i,
        {
            let e = &entries[i];
            proof {
                assert(es.skip(i as int)[0] == e@);
                assert(es.skip(i as int).drop_first() =~= es.skip(i + 1));
            }
            let num = devnum_of(&e.dev)?;
            if supported_major(num.major) {
                if !e.dev_exists {
                    return Err(
                        Error::with_context(ErrorKind::DeviceNotFound, "device path does not exist"),
                    );
                }
                let path = path_append("/dev", e.name.as_str());
                let mounted = mounted_at_exec(mounts, path.as_str(), num, root);
                let device = Device { name: e.name.clone(), device_num: num, mounted };
                read_partitions(&device, &e.partitions, mounts, root, &mut map)?;
                map.insert(path, BlockDevice::Device(device));
            }
            i = i + 1;
        }
        proof {
            assert(es.skip(i as int) =~= Seq::<SysDevModel>::empty());
        }
        let ghost mv = map@;
        let mut j: usize = 0;
        let mut found = false;
        while j < map.entries.len() && !found
            invariant
                j <= map.entries@.len(),
                mv == map@,
                root == root_num(root_dev),
                find_num(mv, root, j as int) == find_num(mv, root, 0),
                found ==> j < map.entries@.len() && model_num(mv[j as int].1) == root,
            decreases map.entries@.len() - j, (if found { 0int } else { 1int }),
        {
            proof {
                assert(mv[j as int].1 == map.entries@[j as int].1@);
            }
            if *map.entries[j].1.get_device_num() == root {
                found = true;
            } else {
                j = j + 1;
            }
        }
        proof {
            lemma_find_num(mv, root, 0);
        }
        if !found {
            return Err(Error::with_context(ErrorKind::InvState, "Failed to find root device"));
        }
        let ghost k = j as int;
        proof {
            assert(find_num(mv, root, k) == Some(k));
        }
        let found = map.entries[j].1.duplicate();
        proof {
            assert(mv[k].1 == found@);
        }
        match found {
            BlockDevice::Partition(p) => {
                let parent = p.parent.duplicate();
                Ok(
                    BlockDeviceInfo {
                        root_device: BlockDevice::Device(parent),
                        root_partition: Some(BlockDevice::Partition(p)),
                        devices: map,
                    },
                )
            },
            BlockDevice::Device(_) => Err(
                Error::with_context(ErrorKind::InvState, "Failed to find root device"),
            ),
        }
    }

    pub fn get_root_device(&self) -> (r: &BlockDevice)
        ensures
            *r == self.root_device,
    {
        &self.root_device
    }

    pub fn get_root_partition(&self) -> (r: &Option<BlockDevice>)
        ensures
            *r == self.root_partition,
    {
        &self.root_partition
    }

    pub fn get_devices(&self) -> (r: &DeviceMap)
        ensures
            *r == self.devices,
    {
        &self.devices
    }

    /// The last component of a path, where it is a name; an `InvParam` error
    /// otherwise.
    pub fn path_filename_as_string(path: &str) -> (r: Result<String, Error>)
        ensures
            match file_name(path@) {
                Some(n) => r matches Ok(s) && s@ == n,
                None => r matches Err(e) && e.kind == ErrorKind::InvParam,
            },
    {
        let p = str_chars(path);
        match file_name_exec(p.as_slice()) {
            Some(n) => Ok(string_from_chars(n.as_slice())),
            None => Err(
                Error::with_context(ErrorKind::InvParam, "Failed to retrieve filename from path"),
            ),
        }
    }
}

} // verus!
