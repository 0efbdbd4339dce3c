//! Stage 1 of the migrator: what it learns about the running system, and the
//! decisions it takes while it prepares the device for stage 2.
use vstd::prelude::*;

pub mod assets;
pub mod backup;
pub mod block_device_info;
pub mod device_impl;
pub mod efi_files;
pub mod exe_copy;
pub mod lsblk_info;
pub mod migrate_info;
pub mod utils;
pub mod wifi_config;

use crate::common::stage2_config::UmountPart;
use crate::common::{path_append, path_append_spec, path_comps, path_starts_with, path_starts_with_exec};
use crate::migrator::common::mig_error::{MigError, MigErrorKind};
use crate::text::{chars_eq, decimal, digits_value, lemma_decimal_digits, push_chars, push_str, str_chars, string_from_chars, trim, trim_chars, u64_to_decimal};
use block_device_info::block_device::{BlockDevModel, BlockDevice};
use block_device_info::{dmap_view, BlockDeviceInfo, DeviceMap, find_path};

verus! {

/// Memory that stage 1 keeps free beyond what it copies: 10 MiB.
pub const S1_XTRA_FS_SIZE: u64 = 10485760;

// ---------------------------------------------------------------------------
// Partitions to unmount
// ---------------------------------------------------------------------------

/// A partition to unmount, as the contracts see it.
pub struct UmountModel {
    pub dev_name: Seq<char>,
    pub mountpoint: Seq<char>,
    pub fs_type: Seq<char>,
}

pub open spec fn umount_view(v: Seq<UmountPart>) -> Seq<UmountModel> {
    v.map_values(|u: UmountPart| UmountModel { dev_name: u.dev_name@, mountpoint: u.mountpoint@, fs_type: u.fs_type@ })
}

/// The first entry from `i` on whose mountpoint lies below `mp` (or is it).
pub open spec fn insert_pos(list: Seq<UmountModel>, mp: Seq<char>, i: int) -> int
    decreases list.len() - i,
{
    if i < 0 || i >= list.len() {
        list.len() as int
    } else if path_starts_with(list[i].mountpoint, mp) {
        i
    } else {
        insert_pos(list, mp, i + 1)
    }
}

/// The mounted partitions of the device named `flash_name`, in map order,
/// each inserted before the first entry whose mountpoint lies below its own.
pub open spec fn umount_build(es: Seq<(Seq<char>, BlockDevModel)>, flash_name: Seq<char>) -> Seq<
    UmountModel,
>
    decreases es.len(),
{
    if es.len() == 0 {
        seq![]
    } else {
        let prev = umount_build(es.drop_last(), flash_name);
        match es.last().1 {
            BlockDevModel::Partition(p) => if p.parent.name == flash_name && p.mounted is Some {
                let m = p.mounted->0;
                let u = UmountModel {
                    dev_name: path_append_spec("/dev"@, p.name),
                    mountpoint: m.mountpoint,
                    fs_type: m.fs_type,
                };
                prev.insert(insert_pos(prev, m.mountpoint, 0), u)
            } else {
                prev
            },
            _ => prev,
        }
    }
}

/// The partitions to unmount before flashing: the list built by
/// `umount_build`, reversed.
pub open spec fn umount_parts_spec(es: Seq<(Seq<char>, BlockDevModel)>, flash_name: Seq<char>) -> Seq<
    UmountModel,
> {
    umount_build(es, flash_name).reverse()
}

pub open spec fn model_name(d: BlockDevModel) -> Seq<char> {
    match d {
        BlockDevModel::Device(x) => x.name,
        BlockDevModel::Partition(x) => x.name,
    }
}

proof fn lemma_insert_pos(list: Seq<UmountModel>, mp: Seq<char>, i: int)
    requires
        0 <= i <= list.len(),
    ensures
        i <= insert_pos(list, mp, i) <= list.len(),
        forall|k: int| i <= k < insert_pos(list, mp, i) ==> !path_starts_with(#[trigger] list[k].mountpoint, mp),
        insert_pos(list, mp, i) < list.len() ==> path_starts_with(list[insert_pos(list, mp, i)].mountpoint, mp),
    decreases list.len() - i,
{
    if i < list.len() && !path_starts_with(list[i].mountpoint, mp) {
        lemma_insert_pos(list, mp, i + 1);
    }
}

/// The partitions of the flash device that must be unmounted before it is
/// flashed (see `umount_parts_spec`).
pub fn get_umount_parts(flash_dev: &BlockDevice, block_dev_info: &BlockDeviceInfo) -> (r: Result<
    Vec<UmountPart>,
    MigError,
>)
    ensures
        r matches Ok(v) && umount_view(v@) == umount_parts_spec(
            block_dev_info.devices@,
            model_name(flash_dev@),
        ),
{
    let es = &block_dev_info.devices.entries;
    let ghost ev = dmap_view(es@);
    let flash_name = str_chars(flash_dev.get_name());
    let mut list: Vec<UmountPart> = Vec::new();
    let mut i: usize = 0;
    proof {
        assert(ev.take(0) =~= Seq::<(Seq<char>, BlockDevModel)>::empty());
        assert(umount_view(list@) =~= Seq::<UmountModel>::empty());
    }
    while i < es.len()
        invariant
            i <= es@.len(),
            ev == dmap_view(es@),
            ev == block_dev_info.devices@,
            flash_name@ == model_name(flash_dev@),
            umount_view(list@) == umount_build(ev.take(i as int), flash_name@),
        decreases es@.len() - i,
    {
        proof {
            assert(ev.take(i + 1).drop_last() =~= ev.take(i as int));
            assert(ev.take(i + 1).last() == ev[i as int]);
            assert(ev[i as int].1 == es@[i as int].1@);
        }
        match &es[i].1 {
            BlockDevice::Partition(p) => {
                let pn = str_chars(p.parent.name.as_str());
                if chars_eq(pn.as_slice(), flash_name.as_slice()) {
                    if let Some(mount) = &p.mounted {
                        let mp = str_chars(mount.mountpoint.as_str());
                        let ghost lv = umount_view(list@);
                        let mut k: usize = 0;
                        let mut found = false;
                        proof {
                            lemma_insert_pos(lv, mp@, 0);
                        }
                        while k < list.len() && !found
                            invariant
                                k <= list@.len(),
                                lv == umount_view(list@),
                                mp@ == mount.mountpoint@,
                                !found ==> insert_pos(lv, mp@, k as int) == insert_pos(lv, mp@, 0),
                                found ==> k == insert_pos(lv, mp@, 0),
                            decreases list@.len() - k, (if found { 0int } else { 1int }),
                        {
                            let lm = str_chars(list[k].mountpoint.as_str());
                            proof {
                                assert(lv[k as int].mountpoint == list@[k as int].mountpoint@);
                            }
                            if path_starts_with_exec(lm.as_slice(), mp.as_slice()) {
                                found = true;
                            } else {
                                k = k + 1;
                            }
                        }
                        let u = UmountPart {
                            dev_name: path_append("/dev", p.name.as_str()),
                            mountpoint: mount.mountpoint.clone(),
                            fs_type: mount.fs_type.clone(),
                        };
                        let ghost um = UmountModel { dev_name: u.dev_name@, mountpoint: u.mountpoint@, fs_type: u.fs_type@ };
                        list.insert(k, u);
                        proof {
                            assert(insert_pos(lv, mp@, 0) == k);
                            assert(umount_view(list@) =~= lv.insert(k as int, um));
                        }
                    }
                }
            },
            BlockDevice::Device(_) => {},
        }
        i = i + 1;
    }
    proof {
        assert(ev.take(es@.len() as int) =~= ev);
    }
    let ghost built = umount_view(list@);
    let mut out: Vec<UmountPart> = Vec::new();
    while list.len() > 0
        invariant
            built == umount_view(list@) + umount_view(out@).reverse(),
        decreases list@.len(),
    {
        let ghost before = umount_view(list@);
        let ghost out_before = umount_view(out@);
        let u = list.pop().unwrap();
        let ghost um = UmountModel { dev_name: u.dev_name@, mountpoint: u.mountpoint@, fs_type: u.fs_type@ };
        out.push(u);
        proof {
            assert(before =~= umount_view(list@).push(um));
            assert(umount_view(out@) =~= out_before.push(um));
            assert(umount_view(out@).reverse() =~= seq![um] + out_before.reverse());
            assert(built =~= umount_view(list@) + umount_view(out@).reverse());
        }
    }
    proof {
        assert(umount_view(list@) =~= Seq::<UmountModel>::empty());
        assert(built =~= umount_view(out@).reverse());
        assert(built.reverse() =~= umount_view(out@));
    }
    Ok(out)
}

/// `a` lies below `b`, and is not `b`.
pub open spec fn strictly_below(a: Seq<char>, b: Seq<char>) -> bool {
    path_starts_with(a, b) && path_comps(a) != path_comps(b)
}

proof fn lemma_below_trans(a: Seq<char>, b: Seq<char>, c: Seq<char>)
    requires
        path_starts_with(a, b),
        path_starts_with(b, c),
    ensures
        path_starts_with(a, c),
{
    let ca = path_comps(a);
    let cb = path_comps(b);
    let cc = path_comps(c);
    assert(ca.take(cc.len() as int) =~= ca.take(cb.len() as int).take(cc.len() as int));
}

proof fn lemma_below_antisym(a: Seq<char>, b: Seq<char>)
    requires
        path_starts_with(a, b),
        path_starts_with(b, a),
    ensures
        path_comps(a) == path_comps(b),
{
    let ca = path_comps(a);
    assert(ca.take(ca.len() as int) =~= ca);
}

/// No entry of the list comes before an entry that it lies below.
pub open spec fn parents_first(l: Seq<UmountModel>) -> bool {
    forall|i: int, j: int|
        0 <= i < j < l.len() ==> !strictly_below(#[trigger] l[i].mountpoint, #[trigger] l[j].mountpoint)
}

proof fn lemma_build_parents_first(es: Seq<(Seq<char>, BlockDevModel)>, flash_name: Seq<char>)
    ensures
        parents_first(umount_build(es, flash_name)),
    decreases es.len(),
{
    if es.len() > 0 {
        let prev = umount_build(es.drop_last(), flash_name);
        lemma_build_parents_first(es.drop_last(), flash_name);
        match es.last().1 {
            BlockDevModel::Partition(p) => {
                if p.parent.name == flash_name && p.mounted is Some {
                    let m = p.mounted->0;
                    let u = UmountModel {
                        dev_name: path_append_spec("/dev"@, p.name),
                        mountpoint: m.mountpoint,
                        fs_type: m.fs_type,
                    };
                    let k = insert_pos(prev, m.mountpoint, 0);
                    lemma_insert_pos(prev, m.mountpoint, 0);
                    let l = prev.insert(k, u);
                    assert forall|i: int, j: int| 0 <= i < j < l.len() implies !strictly_below(
                        #[trigger] l[i].mountpoint,
                        #[trigger] l[j].mountpoint,
                    ) by {
                        if i < k && j < k {
                            assert(l[i] == prev[i] && l[j] == prev[j]);
                        } else if i < k && j == k {
                            assert(l[i] == prev[i]);
                            assert(!path_starts_with(prev[i].mountpoint, m.mountpoint));
                        } else if i < k && j > k {
                            assert(l[i] == prev[i] && l[j] == prev[j - 1]);
                        } else if i == k {
                            assert(l[j] == prev[j - 1]);
                            if strictly_below(m.mountpoint, prev[j - 1].mountpoint) {
                                if j - 1 == k {
                                    lemma_below_antisym(prev[k].mountpoint, m.mountpoint);
                                } else {
                                    lemma_below_trans(prev[k].mountpoint, m.mountpoint, prev[j - 1].mountpoint);
                                    if path_comps(prev[k].mountpoint) == path_comps(prev[j - 1].mountpoint) {
                                        assert(path_starts_with(m.mountpoint, prev[k].mountpoint));
                                        lemma_below_antisym(prev[k].mountpoint, m.mountpoint);
                                    }
                                    assert(strictly_below(prev[k].mountpoint, prev[j - 1].mountpoint));
                                }
                            }
                        } else {
                            assert(l[i] == prev[i - 1] && l[j] == prev[j - 1]);
                        }
                    }
                }
            },
            _ => {},
        }
    }
}

/// Every partition is unmounted before any partition whose mountpoint it
/// lies below: in the list that `get_umount_parts` returns, no entry comes
/// after an entry that lies below it.
pub proof fn law_umount_children_first(es: Seq<(Seq<char>, BlockDevModel)>, flash_name: Seq<char>)
    ensures
        forall|i: int, j: int|
            0 <= i < j < umount_parts_spec(es, flash_name).len() ==> !strictly_below(
                #[trigger] umount_parts_spec(es, flash_name)[j].mountpoint,
                #[trigger] umount_parts_spec(es, flash_name)[i].mountpoint,
            ),
{
    let b = umount_build(es, flash_name);
    lemma_build_parents_first(es, flash_name);
    let r = umount_parts_spec(es, flash_name);
    assert forall|i: int, j: int| 0 <= i < j < r.len() implies !strictly_below(
        #[trigger] r[j].mountpoint,
        #[trigger] r[i].mountpoint,
    ) by {
        assert(r[i] == b[b.len() - 1 - i]);
        assert(r[j] == b[b.len() - 1 - j]);
    }
}

// ---------------------------------------------------------------------------
// Space, device and confirmation
// ---------------------------------------------------------------------------

/// The space that stage 1 copies into memory: the busybox executable and
/// the running executable.
pub fn get_required_space(busybox_size: u64, exe_size: u64) -> (r: u64)
    requires
        busybox_size + exe_size <= u64::MAX,
    ensures
        r == busybox_size + exe_size,
{
    busybox_size + exe_size
}

/// Whether the free memory holds what is copied and 10 MiB beyond; a
/// `Displayed` error where it does not.
pub fn check_space(mem_free: u64, req_space: u64) -> (r: Result<(), MigError>)
    requires
        req_space + S1_XTRA_FS_SIZE <= u64::MAX,
    ensures
        mem_free >= req_space + S1_XTRA_FS_SIZE <==> r is Ok,
        r matches Err(e) ==> e.inner.kind == MigErrorKind::Displayed,
{
    if mem_free < req_space + S1_XTRA_FS_SIZE {
        Err(MigError::displayed())
    } else {
        Ok(())
    }
}

/// The device to flash: the configured one, looked up in the device map (a
/// `Displayed` error where it is not there), else the root device.
pub fn flash_device<'a>(flash_to: Option<&str>, info: &'a BlockDeviceInfo) -> (r: Result<
    &'a BlockDevice,
    MigError,
>)
    ensures
        match flash_to {
            Some(p) => match find_path(info.devices@, p@, 0) {
                Some(i) => r matches Ok(d) && d@ == info.devices@[i].1,
                None => r matches Err(e) && e.inner.kind == MigErrorKind::Displayed,
            },
            None => r matches Ok(d) && *d == info.root_device,
        },
{
    match flash_to {
        Some(p) => match info.devices.get(p) {
            Some(d) => Ok(d),
            None => Err(MigError::displayed()),
        },
        None => Ok(&info.root_device),
    }
}

/// The answer to the question whether to migrate.
#[derive(Debug, Clone, Copy, PartialEq, Eq, Structural)]
pub enum Confirmation {
    Yes,
    No,
    AskAgain,
}

/// An answer line, trimmed: `Y` is yes, `n` is no, anything else asks again.
pub fn confirm_answer(line: &str) -> (r: Confirmation)
    ensures
        r == (if trim(line@) == "Y"@ {
            Confirmation::Yes
        } else if trim(line@) == "n"@ {
            Confirmation::No
        } else {
            Confirmation::AskAgain
        }),
{
    let t = trim_chars(str_chars(line).as_slice());
    if chars_eq(t.as_slice(), str_chars("Y").as_slice()) {
        Confirmation::Yes
    } else if chars_eq(t.as_slice(), str_chars("n").as_slice()) {
        Confirmation::No
    } else {
        Confirmation::AskAgain
    }
}

/// `n` in decimal with at least two digits.
pub open spec fn pad2(n: nat) -> Seq<char> {
    if n < 10 {
        seq!['0'] + decimal(n)
    } else {
        decimal(n)
    }
}

pub fn pad2_exec(n: u64) -> (r: Vec<char>)
    ensures
        r@ == pad2(n as nat),
{
    let d = u64_to_decimal(n);
    if n < 10 {
        let mut v: Vec<char> = Vec::new();
        v.push('0');
        push_chars(&mut v, d.as_slice());
        v
    } else {
        d
    }
}

/// The name under which the `index`-th NetworkManager file is copied:
/// `balena-` and the number in two digits.
pub fn nwmgr_target_name(index: u64) -> (r: String)
    ensures
        r@ == "balena-"@ + pad2(index as nat),
{
    let mut v: Vec<char> = Vec::new();
    push_str(&mut v, "balena-");
    let p = pad2_exec(index);
    push_chars(&mut v, p.as_slice());
    string_from_chars(v.as_slice())
}


proof fn lemma_leading_zero(s: Seq<char>)
    ensures
        digits_value(seq!['0'] + s) == digits_value(s),
    decreases s.len(),
{
    let t = seq!['0'] + s;
    assert(t.len() > 0);
    assert(digits_value(t) == digits_value(t.drop_last()) * 10 + crate::text::digit_value(t.last()));
    if s.len() == 0 {
        assert(t.drop_last() =~= Seq::<char>::empty());
        assert(t.last() == '0');
        assert(crate::text::digit_value('0') == 0);
    } else {
        lemma_leading_zero(s.drop_last());
        assert(t.drop_last() =~= seq!['0'] + s.drop_last());
        assert(t.last() == s.last());
    }
}

/// Each network configuration gets a file of its own: different indexes give
/// different names.
pub proof fn law_nwmgr_names_distinct(a: nat, b: nat)
    requires
        a != b,
    ensures
        "balena-"@ + pad2(a) != "balena-"@ + pad2(b),
{
    lemma_decimal_digits(a);
    lemma_decimal_digits(b);
    lemma_leading_zero(decimal(a));
    lemma_leading_zero(decimal(b));
    let k = "balena-"@.len() as int;
    if "balena-"@ + pad2(a) == "balena-"@ + pad2(b) {
        assert(("balena-"@ + pad2(a)).skip(k) =~= pad2(a));
        assert(("balena-"@ + pad2(b)).skip(k) =~= pad2(b));
        assert(digits_value(pad2(a)) == a);
        assert(digits_value(pad2(b)) == b);
    }
}

} // verus!
