//! Partitions, and the attributes that `blkid` prints for them.
//!
//! `blkid` prints a line `DEVICE: NAME="value" NAME="value" ...`; the pairs
//! are read one after the other until one cannot be read.
use vstd::prelude::*;

use crate::common::{Error, ErrorKind};
use crate::common::options::opt_view;
use crate::migrator::stage1::block_device_info::device::{opt_mount, Device, DeviceModel};
use crate::migrator::stage1::block_device_info::mount::{Mount, MountModel};
use crate::migrator::stage1::block_device_info::DeviceNum;
use crate::text::{
    chars_eq, find_char, find_char_from, lemma_span, not_char_pred, parse_u32, parse_u32_spec,
    slice_to_vec, span, span_ws_from, str_chars, string_from_chars, ws_pred,
};

verus! {

/// The text has no line break.
pub open spec fn no_newline(x: Seq<char>) -> bool {
    find_char(x, '\n') == x.len()
}

/// Whitespace, then the rest of a line: what `\s+(.+)$` captures of `t` in its
/// second group. The whitespace is taken greedily; where `t` is whitespace
/// only, its last character is the rest.
pub open spec fn ws_then_rest(t: Seq<char>) -> Option<Seq<char>> {
    let w = span(t, ws_pred());
    if w == 0 {
        None
    } else if w < t.len() {
        if no_newline(t.skip(w as int)) {
            Some(t.skip(w as int))
        } else {
            None
        }
    } else if t.len() >= 2 && t.last() != '\n' {
        Some(seq![t.last()])
    } else {
        None
    }
}

/// The pairs of a `blkid` line: what follows the device name, its colon and
/// whitespace.
pub open spec fn blkid_start(s: Seq<char>) -> Option<Seq<char>> {
    let c = find_char(s, ':') as int;
    if c == 0 || c >= s.len() {
        None
    } else {
        ws_then_rest(s.skip(c + 1))
    }
}

/// The first `NAME="value"` pair of `p` and what follows it: the name runs to
/// the first `=`, the value to the next quote, after which `p` ends or
/// whitespace and the rest follow.
pub open spec fn blkid_next(p: Seq<char>) -> Option<(Seq<char>, Seq<char>, Option<Seq<char>>)> {
    let e = find_char(p, '=') as int;
    if e == 0 || e + 1 >= p.len() || p[e + 1] != '"' {
        None
    } else {
        let q: int = e + 2 + find_char(p.skip(e + 2), '"');
        if q >= p.len() {
            None
        } else if q + 1 == p.len() {
            Some((p.take(e as int), p.subrange(e + 2, q), None))
        } else {
            match ws_then_rest(p.skip(q + 1)) {
                Some(r) => Some((p.take(e as int), p.subrange(e + 2, q), Some(r))),
                None => None,
            }
        }
    }
}

pub proof fn lemma_ws_then_rest(t: Seq<char>)
    ensures
        ws_then_rest(t) matches Some(r) ==> r.len() < t.len(),
{
    lemma_span(t, ws_pred());
}

pub proof fn lemma_blkid_next(p: Seq<char>)
    ensures
        blkid_next(p) matches Some((n, v, Some(r))) ==> r.len() < p.len(),
{
    let e = find_char(p, '=') as int;
    lemma_span(p, not_char_pred('='));
    if !(e == 0 || e + 1 >= p.len() || p[e + 1] != '"') {
        lemma_span(p.skip(e + 2), not_char_pred('"'));
        let q: int = e + 2 + find_char(p.skip(e + 2), '"');
        if q + 1 < p.len() {
            lemma_ws_then_rest(p.skip(q + 1));
        }
    }
}

/// What `blkid` tells of a partition.
#[derive(Debug)]
pub struct PartitionInfo {
    pub uuid: Option<String>,
    pub block_size: Option<u32>,
    pub fs_type: Option<String>,
    pub label: Option<String>,
    pub part_uuid: Option<String>,
}

pub struct PartitionInfoModel {
    pub uuid: Option<Seq<char>>,
    pub block_size: Option<u32>,
    pub fs_type: Option<Seq<char>>,
    pub label: Option<Seq<char>>,
    pub part_uuid: Option<Seq<char>>,
}

impl View for PartitionInfo {
    type V = PartitionInfoModel;

    open spec fn view(&self) -> PartitionInfoModel {
        PartitionInfoModel {
            uuid: opt_view(self.uuid),
            block_size: self.block_size,
            fs_type: opt_view(self.fs_type),
            label: opt_view(self.label),
            part_uuid: opt_view(self.part_uuid),
        }
    }
}

/// The pairs read one after the other into `acc`: `UUID`, `BLOCK_SIZE`,
/// `TYPE`, `PARTLABEL` and `PARTUUID` are kept, a later pair overriding an
/// earlier one, other names are passed over; a block size that is no `u32` is
/// an `Upstream` error.
pub open spec fn blkid_fold(p: Seq<char>, acc: PartitionInfoModel) -> Result<
    PartitionInfoModel,
    ErrorKind,
>
    decreases p.len(),
{
    match blkid_next(p) {
        None => Ok(acc),
        Some((n, v, rest)) => {
            let next = if n == "UUID"@ {
                Ok(PartitionInfoModel { uuid: Some(v), ..acc })
            } else if n == "BLOCK_SIZE"@ {
                match parse_u32_spec(v) {
                    Some(b) => Ok(PartitionInfoModel { block_size: Some(b), ..acc }),
                    None => Err(ErrorKind::Upstream),
                }
            } else if n == "TYPE"@ {
                Ok(PartitionInfoModel { fs_type: Some(v), ..acc })
            } else if n == "PARTLABEL"@ {
                Ok(PartitionInfoModel { label: Some(v), ..acc })
            } else if n == "PARTUUID"@ {
                Ok(PartitionInfoModel { part_uuid: Some(v), ..acc })
            } else {
                Ok(acc)
            };
            match next {
                Err(k) => Err(k),
                Ok(a) => match rest {
                    None => Ok(a),
                    Some(r) => {
                        proof {
                            lemma_blkid_next(p);
                        }
                        blkid_fold(r, a)
                    },
                },
            }
        },
    }
}

pub open spec fn empty_info() -> PartitionInfoModel {
    PartitionInfoModel { uuid: None, block_size: None, fs_type: None, label: None, part_uuid: None }
}

/// The attributes in a line that `blkid` printed; an `InvParam` error where
/// the line does not begin with a device name, a colon and whitespace.
pub open spec fn blkid_spec(s: Seq<char>) -> Result<PartitionInfoModel, ErrorKind> {
    match blkid_start(s) {
        None => Err(ErrorKind::InvParam),
        Some(p) => blkid_fold(p, empty_info()),
    }
}

fn no_newline_exec(x: &[char]) -> (r: bool)
    ensures
        r == no_newline(x@),
{
    let k = find_char_from(x, 0, '\n');
    proof {
        assert(x@.skip(0) =~= x@);
    }
    k == x.len()
}

fn ws_then_rest_exec(t: &[char]) -> (r: Option<Vec<char>>)
    ensures
        match ws_then_rest(t@) {
            Some(x) => r matches Some(v) && v@ == x,
            None => r is None,
        },
{
    let w = span_ws_from(t, 0);
    proof {
        assert(t@.skip(0) =~= t@);
    }
    if w == 0 {
        None
    } else if w < t.len() {
        let rest = slice_to_vec(t, w, t.len());
        proof {
            assert(rest@ =~= t@.skip(w as int));
        }
        if no_newline_exec(rest.as_slice()) {
            Some(rest)
        } else {
            None
        }
    } else if t.len() >= 2 && t[t.len() - 1] != '\n' {
        let mut v: Vec<char> = Vec::new();
        v.push(t[t.len() - 1]);
        proof {
            assert(v@ =~= seq![t@.last()]);
        }
        Some(v)
    } else {
        None
    }
}

fn blkid_start_exec(s: &[char]) -> (r: Option<Vec<char>>)
    ensures
        match blkid_start(s@) {
            Some(x) => r matches Some(v) && v@ == x,
            None => r is None,
        },
{
    let c = find_char_from(s, 0, ':');
    proof {
        assert(s@.skip(0) =~= s@);
    }
    if c == 0 || c >= s.len() {
        return None;
    }
    let t = slice_to_vec(s, c + 1, s.len());
    proof {
        assert(t@ =~= s@.skip(c + 1));
    }
    ws_then_rest_exec(t.as_slice())
}

fn blkid_next_exec(p: &[char]) -> (r: Option<(Vec<char>, Vec<char>, Option<Vec<char>>)>)
    ensures
        match blkid_next(p@) {
            Some((n, v, rest)) => r matches Some((n2, v2, rest2)) && n2@ == n && v2@ == v
                && match rest {
                Some(x) => rest2 matches Some(y) && y@ == x,
                None => rest2 is None,
            },
            None => r is None,
        },
{
    let e = find_char_from(p, 0, '=');
    proof {
        assert(p@.skip(0) =~= p@);
    }
    if e == 0 || e >= p.len() || p.len() - e < 2 || p[e + 1] != '"' {
        return None;
    }
    let q = find_char_from(p, e + 2, '"');
    if q >= p.len() {
        return None;
    }
    let name = slice_to_vec(p, 0, e);
    let value = slice_to_vec(p, e + 2, q);
    proof {
        assert(name@ =~= p@.take(e as int));
    }
    if q + 1 == p.len() {
        return Some((name, value, None));
    }
    let u = slice_to_vec(p, q + 1, p.len());
    proof {
        assert(u@ =~= p@.skip(q + 1));
    }
    match ws_then_rest_exec(u.as_slice()) {
        Some(r) => Some((name, value, Some(r))),
        None => None,
    }
}

fn dup_opt(o: &Option<String>) -> (r: Option<String>)
    ensures
        r == *o,
{
    match o {
        Some(s) => Some(s.clone()),
        None => None,
    }
}

impl PartitionInfo {
    /// A copy of the attributes.
    pub fn duplicate(&self) -> (r: PartitionInfo)
        ensures
            r == *self,
    {
        PartitionInfo {
            uuid: dup_opt(&self.uuid),
            block_size: self.block_size,
            fs_type: dup_opt(&self.fs_type),
            label: dup_opt(&self.label),
            part_uuid: dup_opt(&self.part_uuid),
        }
    }

    /// The attributes of a partition from the line that `blkid` printed for
    /// it (see `blkid_spec`).
    pub fn new(blkid_output: &str) -> (r: Result<PartitionInfo, Error>)
        ensures
            match blkid_spec(blkid_output@) {
                Ok(m) => r matches Ok(info) && info@ == m,
                Err(k) => r matches Err(e) && e.kind == k,
            },
    {
        let s = str_chars(blkid_output);
        let mut next = match blkid_start_exec(s.as_slice()) {
            Some(p) => p,
            None => {
                return Err(Error::with_context(ErrorKind::InvParam, "Could not parse blkid output"));
            },
        };
        let mut info = PartitionInfo {
            uuid: None,
            block_size: None,
            fs_type: None,
            label: None,
            part_uuid: None,
        };
        let k_uuid = str_chars("UUID");
        let k_bs = str_chars("BLOCK_SIZE");
        let k_type = str_chars("TYPE");
        let k_label = str_chars("PARTLABEL");
        let k_puuid = str_chars("PARTUUID");
        loop
            invariant
                blkid_fold(next@, info@) == blkid_spec(blkid_output@),
                k_uuid@ == "UUID"@,
                k_bs@ == "BLOCK_SIZE"@,
                k_type@ == "TYPE"@,
                k_label@ == "PARTLABEL"@,
                k_puuid@ == "PARTUUID"@,
            decreases next@.len(),
        {
            proof {
                lemma_blkid_next(next@);
            }
            match blkid_next_exec(next.as_slice()) {
                None => {
                    return Ok(info);
                },
                Some((n, v, rest)) => {
                    if chars_eq(n.as_slice(), k_uuid.as_slice()) {
                        info.uuid = Some(string_from_chars(v.as_slice()));
                    } else if chars_eq(n.as_slice(), k_bs.as_slice()) {
                        match parse_u32(v.as_slice()) {
                            Some(b) => {
                                info.block_size = Some(b);
                            },
                            None => {
                                return Err(
                                    Error::with_context(
                                        ErrorKind::Upstream,
                                        "Failed to parse block size",
                                    ),
                                );
                            },
                        }
                    } else if chars_eq(n.as_slice(), k_type.as_slice()) {
                        info.fs_type = Some(string_from_chars(v.as_slice()));
                    } else if chars_eq(n.as_slice(), k_label.as_slice()) {
                        info.label = Some(string_from_chars(v.as_slice()));
                    } else if chars_eq(n.as_slice(), k_puuid.as_slice()) {
                        info.part_uuid = Some(string_from_chars(v.as_slice()));
                    }
                    match rest {
                        None => {
                            return Ok(info);
                        },
                        Some(r) => {
                            next = r;
                        },
                    }
                },
            }
        }
    }

    /// The file system type, where `blkid` named one.
    pub fn fs_type(&self) -> (r: Option<&str>)
        ensures
            match self.fs_type {
                Some(t) => r matches Some(x) && x@ == t@,
                None => r is None,
            },
    {
        match &self.fs_type {
            Some(t) => Some(t.as_str()),
            None => None,
        }
    }
}

/// A partition of a block device.
#[derive(Debug)]
pub struct Partition {
    pub name: String,
    pub device_num: DeviceNum,
    pub mounted: Option<Mount>,
    pub parent: Device,
    pub partition_info: Option<PartitionInfo>,
}

pub struct PartitionModel {
    pub name: Seq<char>,
    pub device_num: DeviceNum,
    pub mounted: Option<MountModel>,
    pub parent: DeviceModel,
    pub partition_info: Option<PartitionInfoModel>,
}

impl View for Partition {
    type V = PartitionModel;

    open spec fn view(&self) -> PartitionModel {
        PartitionModel {
            name: self.name@,
            device_num: self.device_num,
            mounted: opt_mount(self.mounted),
            parent: self.parent@,
            partition_info: match self.partition_info {
                Some(i) => Some(i@),
                None => None,
            },
        }
    }
}

impl Partition {
    /// A copy of the partition.
    pub fn duplicate(&self) -> (r: Partition)
        ensures
            r == *self,
    {
        Partition {
            name: self.name.clone(),
            device_num: self.device_num,
            mounted: match &self.mounted {
                Some(m) => Some(m.duplicate()),
                None => None,
            },
            parent: self.parent.duplicate(),
            partition_info: match &self.partition_info {
                Some(i) => Some(i.duplicate()),
                None => None,
            },
        }
    }

    /// A partition with the attributes that `blkid` printed for it; the
    /// errors of `PartitionInfo::new`.
    pub fn new(
        name: &str,
        device_num: DeviceNum,
        mounted: Option<Mount>,
        parent: Device,
        blkid_output: &str,
    ) -> (r: Result<Partition, Error>)
        ensures
            match blkid_spec(blkid_output@) {
                Ok(m) => r matches Ok(p) && p.name@ == name@ && p.device_num == device_num
                    && p.mounted == mounted && p.parent == parent && (p.partition_info matches Some(
                    i) && i@ == m),
                Err(k) => r matches Err(e) && e.kind == k,
            },
    {
        let info = PartitionInfo::new(blkid_output)?;
        Ok(
            Partition {
                name: string_from_chars(str_chars(name).as_slice()),
                device_num,
                mounted,
                parent,
                partition_info: Some(info),
            },
        )
    }
}

} // verus!
