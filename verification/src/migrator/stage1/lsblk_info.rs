//! The block devices and partitions that `lsblk -b -P` reports.
//!
//! Each line of that output is a list of `NAME="value"` pairs. A `disk` line
//! starts a device, the `part` lines after it are its partitions; lines of
//! other types are passed over.
use vstd::prelude::*;

use crate::common::options::opt_view;
use crate::common::{
    file_name, file_name_exec, path_append, path_append_spec, path_comps, path_eq,
    path_starts_with, path_starts_with_exec, utf8_len, utf8_len_exec,
};
use crate::migrator::common::mig_error::{MigError, MigErrorKind};
use crate::text::{
    all_digits, chars_eq, decimal, digits_value, find_char, find_char_from, is_digit, is_prefix,
    push_str, starts_with, u64_to_decimal, is_whitespace, is_ws, lemma_span, lines, non_ws_pred,
    parse_u64, parse_u64_spec, slice_to_vec, span, span_non_ws_from, span_ws_from, split_lines,
    str_chars, string_from_chars, view_all, ws_pred,
};

verus! {

// ---------------------------------------------------------------------------
// The pairs of a line
// ---------------------------------------------------------------------------

/// Index of the closing quote of a value whose opening quote is at `k + 1`
/// (the length of `s` where there is none).
pub open spec fn quote_end(s: Seq<char>, k: int) -> int {
    k + 2 + find_char(s.skip(k + 2), '"')
}

/// A pair's name can end at `k`: the name is not empty, it and the `="` after
/// it lie within the first run of non-whitespace, the value has a closing
/// quote, and after that quote the line ends or whitespace follows.
pub open spec fn param_end_ok(s: Seq<char>, k: int) -> bool {
    &&& 1 <= k
    &&& k + 1 < span(s, non_ws_pred())
    &&& s[k] == '='
    &&& s[k + 1] == '"'
    &&& quote_end(s, k) < s.len()
    &&& (quote_end(s, k) + 1 == s.len() || is_ws(s[quote_end(s, k) + 1]))
}

/// The largest name end at or below `k`, zero where there is none: names are
/// matched greedily.
pub open spec fn find_param(s: Seq<char>, k: int) -> int
    decreases k,
{
    if k < 1 {
        0
    } else if param_end_ok(s, k) {
        k
    } else {
        find_param(s, k - 1)
    }
}

pub proof fn lemma_find_param(s: Seq<char>, k: int)
    ensures
        find_param(s, k) == 0 || (1 <= find_param(s, k) <= k && param_end_ok(
            s,
            find_param(s, k),
        )),
    decreases k,
{
    if k >= 1 && !param_end_ok(s, k) {
        lemma_find_param(s, k - 1);
    }
}

/// The `(name, value)` pairs of a line, in order, as far as they can be read;
/// a pair with an empty value is left out.
pub open spec fn line_params(s: Seq<char>) -> Seq<(Seq<char>, Seq<char>)>
    decreases s.len(),
{
    let k = find_param(s, s.len() as int);
    if k == 0 {
        seq![]
    } else {
        proof {
            lemma_find_param(s, s.len() as int);
            lemma_span(s, non_ws_pred());
        }
        let j = quote_end(s, k);
        let head = if j == k + 2 {
            seq![]
        } else {
            seq![(s.subrange(0, k), s.subrange(k + 2, j))]
        };
        if j + 1 >= s.len() {
            head
        } else {
            let r = s.skip(j + 1);
            proof {
                lemma_span(r, ws_pred());
                lemma_span(s.skip(k + 2), crate::text::not_char_pred('"'));
            }
            head + line_params(r.skip(span(r, ws_pred()) as int))
        }
    }
}

/// The value of the last pair named `key`.
pub open spec fn lookup(ps: Seq<(Seq<char>, Seq<char>)>, key: Seq<char>) -> Option<Seq<char>>
    decreases ps.len(),
{
    if ps.len() == 0 {
        None
    } else if ps.last().0 == key {
        Some(ps.last().1)
    } else {
        lookup(ps.drop_last(), key)
    }
}

pub open spec fn pairs_view(v: Seq<(Vec<char>, Vec<char>)>) -> Seq<(Seq<char>, Seq<char>)> {
    v.map_values(|p: (Vec<char>, Vec<char>)| (p.0@, p.1@))
}

fn param_end_ok_exec(s: &[char], k: usize, n0: usize) -> (r: bool)
    requires
        n0 == span(s@, non_ws_pred()),
        k <= s@.len(),
    ensures
        r == param_end_ok(s@, k as int),
{
    proof {
        lemma_span(s@, non_ws_pred());
    }
    if k < 1 || k >= n0 || n0 - k <= 1 || s[k] != '=' || s[k + 1] != '"' {
        return false;
    }
    let j = find_char_from(s, k + 2, '"');
    j < s.len() && (j + 1 == s.len() || is_whitespace(s[j + 1]))
}

fn find_param_exec(s: &[char]) -> (k: usize)
    ensures
        k == find_param(s@, s@.len() as int),
{
    let n0 = span_non_ws_from(s, 0);
    proof {
        assert(s@.skip(0) =~= s@);
    }
    let mut k: usize = s.len();
    while k >= 1
        invariant
            k <= s@.len(),
            n0 == span(s@, non_ws_pred()),
            find_param(s@, k as int) == find_param(s@, s@.len() as int),
        decreases k,
    {
        if param_end_ok_exec(s, k, n0) {
            return k;
        }
        k = k - 1;
    }
    0
}

/// Read the `(name, value)` pairs of a line (see `line_params`).
pub fn parse_params(line: &[char]) -> (r: Vec<(Vec<char>, Vec<char>)>)
    ensures
        pairs_view(r@) == line_params(line@),
{
    let mut r: Vec<(Vec<char>, Vec<char>)> = Vec::new();
    let mut cur: Vec<char> = slice_to_vec(line, 0, line.len());
    proof {
        assert(line@.subrange(0, line@.len() as int) =~= line@);
    }
    loop
        invariant
            pairs_view(r@) + line_params(cur@) == line_params(line@),
        decreases cur@.len(),
    {
        let k = find_param_exec(cur.as_slice());
        if k == 0 {
            proof {
                assert(pairs_view(r@) + line_params(cur@) =~= pairs_view(r@));
            }
            return r;
        }
        proof {
            lemma_find_param(cur@, cur@.len() as int);
            lemma_span(cur@, non_ws_pred());
            assert(param_end_ok(cur@, k as int));
            assert(k + 2 <= cur@.len());
        }
        let n = cur.len();
        assert(k + 2 <= n);
        let j = find_char_from(cur.as_slice(), k + 2, '"');
        let ghost s = cur@;
        let ghost old_r = pairs_view(r@);
        if j != k + 2 {
            let name = slice_to_vec(cur.as_slice(), 0, k);
            let value = slice_to_vec(cur.as_slice(), k + 2, j);
            r.push((name, value));
            proof {
                assert(pairs_view(r@) =~= old_r.push((s.subrange(0, k as int), s.subrange(
                    k + 2,
                    j as int,
                ))));
            }
        }
        let ghost head: Seq<(Seq<char>, Seq<char>)> = if j == k + 2 {
            seq![]
        } else {
            seq![(s.subrange(0, k as int), s.subrange(k + 2, j as int))]
        };
        proof {
            assert(pairs_view(r@) =~= old_r + head);
        }
        if j + 1 >= cur.len() {
            proof {
                assert(line_params(s) == head);
                assert(pairs_view(r@) =~= old_r + line_params(s));
            }
            return r;
        }
        let w = span_ws_from(cur.as_slice(), j + 1);
        let next = slice_to_vec(cur.as_slice(), w, cur.len());
        proof {
            let rr = s.skip(j + 1);
            lemma_span(rr, ws_pred());
            assert(rr.skip(span(rr, ws_pred()) as int) =~= s.subrange(w as int, s.len() as int));
            assert(line_params(s) == head + line_params(next@));
            assert(old_r + head + line_params(next@) =~= old_r + (head + line_params(next@)));
        }
        cur = next;
    }
}

/// The value of the last pair named `key`.
pub fn lookup_exec(ps: &Vec<(Vec<char>, Vec<char>)>, key: &[char]) -> (r: Option<Vec<char>>)
    ensures
        match lookup(pairs_view(ps@), key@) {
            Some(v) => r matches Some(x) && x@ == v,
            None => r is None,
        },
{
    let mut i: usize = ps.len();
    proof {
        assert(pairs_view(ps@).take(ps@.len() as int) =~= pairs_view(ps@));
    }
    while i > 0
        invariant
            i <= ps@.len(),
            lookup(pairs_view(ps@).take(i as int), key@) == lookup(pairs_view(ps@), key@),
        decreases i,
    {
        let ghost t = pairs_view(ps@).take(i as int);
        proof {
            assert(t.last() == pairs_view(ps@)[i - 1]);
            assert(t.drop_last() =~= pairs_view(ps@).take(i - 1));
        }
        if chars_eq(ps[i - 1].0.as_slice(), key) {
            return Some(slice_to_vec(ps[i - 1].1.as_slice(), 0, ps[i - 1].1.len()));
        }
        i = i - 1;
    }
    None
}


// ---------------------------------------------------------------------------
// Devices and partitions
// ---------------------------------------------------------------------------

/// A partition as `lsblk` reports it.
#[derive(Debug, Clone)]
pub struct LsblkPartition {
    pub name: String,
    pub kname: String,
    pub maj_min: String,
    pub ro: String,
    pub uuid: Option<String>,
    pub fstype: Option<String>,
    pub mountpoint: Option<String>,
    pub label: Option<String>,
    pub parttype: Option<String>,
    pub partlabel: Option<String>,
    pub partuuid: Option<String>,
    pub size: Option<u64>,
    pub index: Option<u16>,
}

/// A block device as `lsblk` reports it, with the partitions listed after it.
#[derive(Debug, Clone)]
pub struct LsblkDevice {
    pub name: String,
    pub kname: String,
    pub maj_min: String,
    pub uuid: Option<String>,
    pub size: Option<u64>,
    pub children: Option<Vec<LsblkPartition>>,
}

/// The devices of an `lsblk` report, in the order of the report.
#[derive(Debug)]
pub struct LsblkInfo {
    pub blockdevices: Vec<LsblkDevice>,
}

pub struct PartModel {
    pub name: Seq<char>,
    pub kname: Seq<char>,
    pub maj_min: Seq<char>,
    pub ro: Seq<char>,
    pub uuid: Option<Seq<char>>,
    pub fstype: Option<Seq<char>>,
    pub mountpoint: Option<Seq<char>>,
    pub label: Option<Seq<char>>,
    pub parttype: Option<Seq<char>>,
    pub partlabel: Option<Seq<char>>,
    pub partuuid: Option<Seq<char>>,
    pub size: Option<u64>,
    pub index: Option<u16>,
}

pub struct DevModel {
    pub name: Seq<char>,
    pub kname: Seq<char>,
    pub maj_min: Seq<char>,
    pub uuid: Option<Seq<char>>,
    pub size: Option<u64>,
    pub children: Option<Seq<PartModel>>,
}

impl View for LsblkPartition {
    type V = PartModel;

    open spec fn view(&self) -> PartModel {
        PartModel {
            name: self.name@,
            kname: self.kname@,
            maj_min: self.maj_min@,
            ro: self.ro@,
            uuid: opt_view(self.uuid),
            fstype: opt_view(self.fstype),
            mountpoint: opt_view(self.mountpoint),
            label: opt_view(self.label),
            parttype: opt_view(self.parttype),
            partlabel: opt_view(self.partlabel),
            partuuid: opt_view(self.partuuid),
            size: self.size,
            index: self.index,
        }
    }
}

pub open spec fn parts_view(v: Seq<LsblkPartition>) -> Seq<PartModel> {
    v.map_values(|p: LsblkPartition| p@)
}

impl View for LsblkDevice {
    type V = DevModel;

    open spec fn view(&self) -> DevModel {
        DevModel {
            name: self.name@,
            kname: self.kname@,
            maj_min: self.maj_min@,
            uuid: opt_view(self.uuid),
            size: self.size,
            children: match self.children {
                Some(c) => Some(parts_view(c@)),
                None => None,
            },
        }
    }
}

pub open spec fn devs_view(v: Seq<LsblkDevice>) -> Seq<DevModel> {
    v.map_values(|d: LsblkDevice| d@)
}

impl View for LsblkInfo {
    type V = Seq<DevModel>;

    open spec fn view(&self) -> Seq<DevModel> {
        devs_view(self.blockdevices@)
    }
}

// ---------------------------------------------------------------------------
// Reading the report
// ---------------------------------------------------------------------------

/// A number pair: absent is `None`, a value that is no `u64` an `Upstream`
/// error.
pub open spec fn get_u64_spec(ps: Seq<(Seq<char>, Seq<char>)>, key: Seq<char>) -> Result<
    Option<u64>,
    MigErrorKind,
> {
    match lookup(ps, key) {
        None => Ok(None),
        Some(v) => match parse_u64_spec(v) {
            Some(n) => Ok(Some(n)),
            None => Err(MigErrorKind::Upstream),
        },
    }
}

/// The device of a `disk` line: `NAME`, `KNAME` and `MAJ:MIN` are required.
pub open spec fn disk_from(ps: Seq<(Seq<char>, Seq<char>)>) -> Result<DevModel, MigErrorKind> {
    if lookup(ps, "NAME"@) is None || lookup(ps, "KNAME"@) is None || lookup(ps, "MAJ:MIN"@) is None {
        Err(MigErrorKind::NotFound)
    } else {
        match get_u64_spec(ps, "SIZE"@) {
            Err(e) => Err(e),
            Ok(size) => Ok(
                DevModel {
                    name: lookup(ps, "NAME"@)->0,
                    kname: lookup(ps, "KNAME"@)->0,
                    maj_min: lookup(ps, "MAJ:MIN"@)->0,
                    uuid: lookup(ps, "UUID"@),
                    size,
                    children: None,
                },
            ),
        }
    }
}

/// The partition of a `part` line, numbered `index`: `NAME`, `KNAME`,
/// `MAJ:MIN` and `RO` are required.
pub open spec fn part_from(ps: Seq<(Seq<char>, Seq<char>)>, index: u16) -> Result<
    PartModel,
    MigErrorKind,
> {
    if lookup(ps, "NAME"@) is None || lookup(ps, "KNAME"@) is None || lookup(ps, "MAJ:MIN"@) is None
        || lookup(ps, "RO"@) is None {
        Err(MigErrorKind::NotFound)
    } else {
        match get_u64_spec(ps, "SIZE"@) {
            Err(e) => Err(e),
            Ok(size) => Ok(
                PartModel {
                    name: lookup(ps, "NAME"@)->0,
                    kname: lookup(ps, "KNAME"@)->0,
                    maj_min: lookup(ps, "MAJ:MIN"@)->0,
                    ro: lookup(ps, "RO"@)->0,
                    uuid: lookup(ps, "UUID"@),
                    fstype: lookup(ps, "FSTYPE"@),
                    mountpoint: lookup(ps, "MOUNTPOINT"@),
                    label: lookup(ps, "LABEL"@),
                    parttype: None,
                    partlabel: None,
                    partuuid: None,
                    size,
                    index: Some(index),
                },
            ),
        }
    }
}

/// The partitions of a device so far.
pub open spec fn children_of(d: DevModel) -> Seq<PartModel> {
    match d.children {
        Some(c) => c,
        None => seq![],
    }
}

/// The report read line by line: `devs` are the finished devices, `curr` the
/// device whose partitions are being read. A line without a `TYPE` is a
/// `NotFound` error, a partition before any device an `InvState` error; a
/// partition's number is its position under its device, from one, kept in
/// 16 bits.
pub open spec fn lsblk_fold(ls: Seq<Seq<char>>, devs: Seq<DevModel>, curr: Option<DevModel>) -> Result<
    Seq<DevModel>,
    MigErrorKind,
>
    decreases ls.len(),
{
    if ls.len() == 0 {
        Ok(
            match curr {
                Some(d) => devs.push(d),
                None => devs,
            },
        )
    } else {
        let ps = line_params(ls[0]);
        match lookup(ps, "TYPE"@) {
            None => Err(MigErrorKind::NotFound),
            Some(t) => if t == "disk"@ {
                match disk_from(ps) {
                    Err(e) => Err(e),
                    Ok(d) => lsblk_fold(
                        ls.drop_first(),
                        match curr {
                            Some(c) => devs.push(c),
                            None => devs,
                        },
                        Some(d),
                    ),
                }
            } else if t == "part"@ {
                match curr {
                    None => Err(MigErrorKind::InvState),
                    Some(c) => {
                        let n = children_of(c).len();
                        match part_from(ps, ((n + 1) % 65536) as u16) {
                            Err(e) => Err(e),
                            Ok(p) => lsblk_fold(
                                ls.drop_first(),
                                devs,
                                Some(DevModel { children: Some(children_of(c).push(p)), ..c }),
                            ),
                        }
                    },
                }
            } else {
                lsblk_fold(ls.drop_first(), devs, curr)
            },
        }
    }
}

/// The devices of an `lsblk -P` report (see `lsblk_fold`).
pub open spec fn lsblk_spec(list: Seq<char>) -> Result<Seq<DevModel>, MigErrorKind> {
    lsblk_fold(lines(list), seq![], None)
}

fn opt_string(v: Option<Vec<char>>) -> (r: Option<String>)
    ensures
        opt_view(r) == match v {
            Some(x) => Some(x@),
            None => None::<Seq<char>>,
        },
{
    match v {
        Some(x) => Some(string_from_chars(x.as_slice())),
        None => None,
    }
}

fn get_u64_exec(ps: &Vec<(Vec<char>, Vec<char>)>, key: &str) -> (r: Result<Option<u64>, MigError>)
    ensures
        match get_u64_spec(pairs_view(ps@), key@) {
            Ok(v) => r == Ok::<Option<u64>, MigError>(v),
            Err(k) => r matches Err(e) && e.inner.kind == k,
        },
{
    let k = str_chars(key);
    match lookup_exec(ps, k.as_slice()) {
        None => Ok(None),
        Some(v) => match parse_u64(v.as_slice()) {
            Some(n) => Ok(Some(n)),
            None => Err(MigError::from_remark(MigErrorKind::Upstream, "Failed to parse u64")),
        },
    }
}

fn lookup_str(ps: &Vec<(Vec<char>, Vec<char>)>, key: &str) -> (r: Option<Vec<char>>)
    ensures
        match lookup(pairs_view(ps@), key@) {
            Some(v) => r matches Some(x) && x@ == v,
            None => r is None,
        },
{
    let k = str_chars(key);
    lookup_exec(ps, k.as_slice())
}

fn disk_from_exec(ps: &Vec<(Vec<char>, Vec<char>)>) -> (r: Result<LsblkDevice, MigError>)
    ensures
        match disk_from(pairs_view(ps@)) {
            Ok(d) => r matches Ok(x) && x@ == d,
            Err(k) => r matches Err(e) && e.inner.kind == k,
        },
{
    let name = lookup_str(ps, "NAME");
    let kname = lookup_str(ps, "KNAME");
    let maj_min = lookup_str(ps, "MAJ:MIN");
    if name.is_none() || kname.is_none() || maj_min.is_none() {
        return Err(MigError::from_remark(MigErrorKind::NotFound, "Parameter not found in lsblk output"));
    }
    let size = get_u64_exec(ps, "SIZE")?;
    let uuid = opt_string(lookup_str(ps, "UUID"));
    Ok(
        LsblkDevice {
            name: string_from_chars(name.unwrap().as_slice()),
            kname: string_from_chars(kname.unwrap().as_slice()),
            maj_min: string_from_chars(maj_min.unwrap().as_slice()),
            uuid,
            size,
            children: None,
        },
    )
}

fn part_from_exec(ps: &Vec<(Vec<char>, Vec<char>)>, index: u16) -> (r: Result<LsblkPartition, MigError>)
    ensures
        match part_from(pairs_view(ps@), index) {
            Ok(p) => r matches Ok(x) && x@ == p,
            Err(k) => r matches Err(e) && e.inner.kind == k,
        },
{
    let name = lookup_str(ps, "NAME");
    let kname = lookup_str(ps, "KNAME");
    let maj_min = lookup_str(ps, "MAJ:MIN");
    let ro = lookup_str(ps, "RO");
    if name.is_none() || kname.is_none() || maj_min.is_none() || ro.is_none() {
        return Err(MigError::from_remark(MigErrorKind::NotFound, "Parameter not found in lsblk output"));
    }
    let size = get_u64_exec(ps, "SIZE")?;
    Ok(
        LsblkPartition {
            name: string_from_chars(name.unwrap().as_slice()),
            kname: string_from_chars(kname.unwrap().as_slice()),
            maj_min: string_from_chars(maj_min.unwrap().as_slice()),
            ro: string_from_chars(ro.unwrap().as_slice()),
            uuid: opt_string(lookup_str(ps, "UUID")),
            fstype: opt_string(lookup_str(ps, "FSTYPE")),
            mountpoint: opt_string(lookup_str(ps, "MOUNTPOINT")),
            label: opt_string(lookup_str(ps, "LABEL")),
            parttype: None,
            partlabel: None,
            partuuid: None,
            size,
            index: Some(index),
        },
    )
}

pub open spec fn opt_dev_model(d: Option<LsblkDevice>) -> Option<DevModel> {
    match d {
        Some(x) => Some(x@),
        None => None,
    }
}

impl LsblkInfo {
    /// Read an `lsblk -b -P` report (see `lsblk_fold`).
    pub fn from_list(list: &str) -> (r: Result<LsblkInfo, MigError>)
        ensures
            match lsblk_spec(list@) {
                Ok(ds) => r matches Ok(info) && info@ == ds,
                Err(k) => r matches Err(e) && e.inner.kind == k,
            },
    {
        let chars = str_chars(list);
        let ls = split_lines(chars.as_slice());
        let mut devs: Vec<LsblkDevice> = Vec::new();
        let mut curr: Option<LsblkDevice> = None;
        let mut i: usize = 0;
        let ghost all = view_all(ls@);
        proof {
            assert(all.skip(0) =~= all);
            assert(devs_view(devs@) =~= Seq::<DevModel>::empty());
        }
        while i < ls.len()
            invariant
                i <= ls@.len(),
                all == view_all(ls@),
                all == lines(list@),
                lsblk_fold(all.skip(i as int), devs_view(devs@), opt_dev_model(curr)) == lsblk_spec(
                    list@,
                ),
            decreases ls@.len() - i,
        {
            let ghost cv: Option<DevModel> = opt_dev_model(curr);
            let ghost dv = devs_view(devs@);
            proof {
                assert(all.skip(i as int)[0] == ls@[i as int]@);
                assert(all.skip(i as int).drop_first() =~= all.skip(i + 1));
            }
            let ps = parse_params(ls[i].as_slice());
            let t = match lookup_str(&ps, "TYPE") {
                Some(t) => t,
                None => {
                    return Err(
                        MigError::from_remark(MigErrorKind::NotFound, "Parameter 'TYPE' not found"),
                    );
                },
            };
            let disk = str_chars("disk");
            let part = str_chars("part");
            if chars_eq(t.as_slice(), disk.as_slice()) {
                let d = disk_from_exec(&ps)?;
                match curr {
                    Some(c) => {
                        devs.push(c);
                        proof {
                            assert(devs_view(devs@) =~= dv.push(cv->0));
                        }
                    },
                    None => {},
                }
                curr = Some(d);
            } else if chars_eq(t.as_slice(), part.as_slice()) {
                match curr {
                    None => {
                        return Err(
                            MigError::from_remark(
                                MigErrorKind::InvState,
                                "Invalid state while parsing lsblk output, no device",
                            ),
                        );
                    },
                    Some(c) => {
                        let mut c = c;
                        let mut children: Vec<LsblkPartition> = match c.children {
                            Some(ch) => ch,
                            None => Vec::new(),
                        };
                        proof {
                            assert(parts_view(children@) == children_of(cv->0));
                        }
                        let m = (children.len() % 65536) as u16;
                        let index: u16 = if m == 65535 {
                            0
                        } else {
                            m + 1
                        };
                        assert(index == ((children@.len() + 1) % 65536) as u16);
                        let p = part_from_exec(&ps, index)?;
                        let ghost old_children = parts_view(children@);
                        children.push(p);
                        proof {
                            assert(parts_view(children@) =~= old_children.push(p@));
                        }
                        c.children = Some(children);
                        curr = Some(c);
                    },
                }
            }
            i = i + 1;
        }
        match curr {
            Some(c) => {
                let ghost dv = devs_view(devs@);
                devs.push(c);
                proof {
                    assert(devs_view(devs@) =~= dv.push(c@));
                }
            },
            None => {},
        }
        Ok(LsblkInfo { blockdevices: devs })
    }
}

// ---------------------------------------------------------------------------
// Paths of devices and partitions
// ---------------------------------------------------------------------------

impl LsblkPartition {
    /// `/dev/` and the partition's name.
    pub fn get_path(&self) -> (r: String)
        ensures
            r@ == path_append_spec("/dev"@, self.name@),
    {
        path_append("/dev", self.name.as_str())
    }

    /// The partition's path by its partition UUID, else by its file system
    /// UUID, else by its label, else under `/dev`.
    pub fn get_alt_path(&self) -> (r: String)
        ensures
            r@ == (match (self.partuuid, self.uuid, self.label) {
                (Some(p), _, _) => path_append_spec("/dev/disk/by-partuuid"@, p@),
                (None, Some(u), _) => path_append_spec("/dev/disk/by-uuid"@, u@),
                (None, None, Some(l)) => path_append_spec("/dev/disk/by-label"@, l@),
                (None, None, None) => path_append_spec("/dev"@, self.name@),
            }),
    {
        if let Some(partuuid) = &self.partuuid {
            path_append("/dev/disk/by-partuuid", partuuid.as_str())
        } else if let Some(uuid) = &self.uuid {
            path_append("/dev/disk/by-uuid", uuid.as_str())
        } else if let Some(label) = &self.label {
            path_append("/dev/disk/by-label", label.as_str())
        } else {
            path_append("/dev", self.name.as_str())
        }
    }
}

/// Index of the first partition named `name`, from `j` on.
pub open spec fn find_part(ps: Seq<PartModel>, name: Seq<char>, j: int) -> Option<int>
    decreases ps.len() - j,
{
    if j < 0 || j >= ps.len() {
        None
    } else if ps[j].name == name {
        Some(j)
    } else {
        find_part(ps, name, j + 1)
    }
}

pub proof fn lemma_find_part(ps: Seq<PartModel>, name: Seq<char>, j: int)
    ensures
        find_part(ps, name, j) matches Some(k) ==> j <= k < ps.len() && ps[k].name == name,
    decreases ps.len() - j,
{
    if 0 <= j < ps.len() && ps[j].name != name {
        lemma_find_part(ps, name, j + 1);
    }
}

/// Where the partition named `name` sits among the partitions of `d`.
pub open spec fn part_named(d: DevModel, name: Seq<char>) -> Option<int> {
    match d.children {
        Some(c) => find_part(c, name, 0),
        None => None,
    }
}

impl LsblkDevice {
    /// The device's partition named `part_name`; a `NotFound` error where it
    /// has none of that name.
    pub fn get_devinfo_from_part_name(&self, part_name: &str) -> (r: Result<&LsblkPartition, MigError>)
        ensures
            match part_named(self@, part_name@) {
                Some(j) => r matches Ok(p) && self.children matches Some(c) && 0 <= j < c@.len() && *p
                    == c@[j],
                None => r matches Err(e) && e.inner.kind == MigErrorKind::NotFound,
            },
    {
        match &self.children {
            Some(children) => {
                proof {
                    lemma_find_part(parts_view(children@), part_name@, 0);
                }
                let name = str_chars(part_name);
                let mut j: usize = 0;
                while j < children.len()
                    invariant
                        j <= children@.len(),
                        name@ == part_name@,
                        self.children == Some(*children),
                        find_part(parts_view(children@), name@, j as int) == part_named(
                            self@,
                            part_name@,
                        ),
                    decreases children@.len() - j,
                {
                    let cn = str_chars(children[j].name.as_str());
                    if chars_eq(cn.as_slice(), name.as_slice()) {
                        return Ok(&children[j]);
                    }
                    j = j + 1;
                }
                Err(
                    MigError::from_remark(
                        MigErrorKind::NotFound,
                        "The partition was not found in lsblk output",
                    ),
                )
            },
            None => Err(
                MigError::from_remark(
                    MigErrorKind::NotFound,
                    "The device was not found in lsblk output",
                ),
            ),
        }
    }

    /// `/dev/` followed by the device's name.
    pub fn get_path(&self) -> (r: String)
        ensures
            r@ == "/dev/"@ + self.name@,
    {
        let mut v: Vec<char> = Vec::new();
        push_str(&mut v, "/dev/");
        let n = str_chars(self.name.as_str());
        crate::text::push_chars(&mut v, n.as_slice());
        string_from_chars(v.as_slice())
    }
}

// ---------------------------------------------------------------------------
// Selecting devices
// ---------------------------------------------------------------------------

/// The block device majors that the migration supports: IDE, SCSI, MD, MMC
/// and NVMe disks among them.
pub open spec fn is_supported_major(n: nat) -> bool {
    n == 3 || n == 8 || n == 9 || n == 21 || n == 33 || n == 34 || n == 44 || (48 <= n && n <= 58)
        || (64 <= n && n <= 87) || n == 179 || n == 180 || n == 259
}

pub fn supported_major(n: u64) -> (r: bool)
    ensures
        r == is_supported_major(n as nat),
{
    n == 3 || n == 8 || n == 9 || n == 21 || n == 33 || n == 34 || n == 44 || (48 <= n && n <= 58)
        || (64 <= n && n <= 87) || n == 179 || n == 180 || n == 259
}

/// A `MAJ:MIN` text of decimal digits whose major, as written, is a supported
/// major.
pub open spec fn maj_min_supported(m: Seq<char>) -> bool {
    let k = find_char(m, ':');
    let maj = m.take(k as int);
    &&& k < m.len()
    &&& maj.len() > 0
    &&& all_digits(maj)
    &&& decimal(digits_value(maj)) == maj
    &&& is_supported_major(digits_value(maj))
    &&& m.skip(k as int + 1).len() > 0
    &&& all_digits(m.skip(k as int + 1))
}

fn all_digits_exec(s: &[char]) -> (r: bool)
    ensures
        r == all_digits(s@),
{
    let mut i: usize = 0;
    while i < s.len()
        invariant
            i <= s@.len(),
            forall|j: int| 0 <= j < i ==> is_digit(#[trigger] s@[j]),
        decreases s@.len() - i,
    {
        if s[i] < '0' || s[i] > '9' {
            return false;
        }
        i = i + 1;
    }
    true
}

fn maj_min_supported_exec(m: &[char]) -> (r: bool)
    ensures
        r == maj_min_supported(m@),
{
    let k = find_char_from(m, 0, ':');
    proof {
        assert(m@.skip(0) =~= m@);
    }
    if k == m.len() {
        return false;
    }
    let maj = slice_to_vec(m, 0, k);
    let min = slice_to_vec(m, k + 1, m.len());
    proof {
        assert(maj@ =~= m@.take(k as int));
        assert(min@ =~= m@.skip(k + 1));
    }
    if maj.len() == 0 || min.len() == 0 || !all_digits_exec(maj.as_slice()) || !all_digits_exec(
        min.as_slice(),
    ) {
        return false;
    }
    match parse_u64(maj.as_slice()) {
        Some(v) => {
            let d = u64_to_decimal(v);
            supported_major(v) && chars_eq(d.as_slice(), maj.as_slice())
        },
        None => false,
    }
}

/// The devices whose major is supported, in their order.
pub open spec fn supported_devs(ds: Seq<DevModel>) -> Seq<DevModel>
    decreases ds.len(),
{
    if ds.len() == 0 {
        seq![]
    } else if maj_min_supported(ds.last().maj_min) {
        supported_devs(ds.drop_last()).push(ds.last())
    } else {
        supported_devs(ds.drop_last())
    }
}

// ---------------------------------------------------------------------------
// Finding the partition that holds a path
// ---------------------------------------------------------------------------

/// A mounted partition: the index of its device, its own index under the
/// device, and its mountpoint.
pub struct MountAt {
    pub dev: int,
    pub part: int,
    pub mountpoint: Seq<char>,
}

/// The mounted partitions of device `i`, from partition `j` on.
pub open spec fn part_mounts(ps: Seq<PartModel>, i: int, j: int) -> Seq<MountAt>
    decreases ps.len() - j,
{
    if j < 0 || j >= ps.len() {
        seq![]
    } else {
        (match ps[j].mountpoint {
            Some(mp) => seq![MountAt { dev: i, part: j, mountpoint: mp }],
            None => seq![],
        }) + part_mounts(ps, i, j + 1)
    }
}

/// The mounted partitions of the devices from `i` on, in report order.
pub open spec fn dev_mounts(ds: Seq<DevModel>, i: int) -> Seq<MountAt>
    decreases ds.len() - i,
{
    if i < 0 || i >= ds.len() {
        seq![]
    } else {
        part_mounts(children_of(ds[i]), i, 0) + dev_mounts(ds, i + 1)
    }
}

/// The mount that holds `abs`: the first one mounted exactly there, else the
/// first of the longest mountpoints (by bytes) that `abs` lies below.
pub open spec fn best_mount(
    cs: Seq<MountAt>,
    abs: Seq<char>,
    best: Option<MountAt>,
) -> Option<(int, int)>
    decreases cs.len(),
{
    if cs.len() == 0 {
        match best {
            Some(b) => Some((b.dev, b.part)),
            None => None,
        }
    } else {
        let c = cs[0];
        if path_comps(abs) == path_comps(c.mountpoint) {
            Some((c.dev, c.part))
        } else if path_starts_with(abs, c.mountpoint) && (best is None || utf8_len(
            best->0.mountpoint,
        ) < utf8_len(c.mountpoint)) {
            best_mount(cs.drop_first(), abs, Some(c))
        } else {
            best_mount(cs.drop_first(), abs, best)
        }
    }
}

/// The device and partition whose mount holds the path `abs`.
pub open spec fn path_devs_spec(ds: Seq<DevModel>, abs: Seq<char>) -> Option<(int, int)> {
    best_mount(dev_mounts(ds, 0), abs, None)
}

/// The device and partition whose name `name` begins with the device's name,
/// the first such device; `None` where there is none.
pub open spec fn find_dev_prefix(ds: Seq<DevModel>, name: Seq<char>, i: int) -> Option<int>
    decreases ds.len() - i,
{
    if i < 0 || i >= ds.len() {
        None
    } else if is_prefix(ds[i].name, name) {
        Some(i)
    } else {
        find_dev_prefix(ds, name, i + 1)
    }
}

/// `d` and `p` are device `i` of the report and its partition `j`.
pub open spec fn is_dev_part(
    info: &LsblkInfo,
    i: int,
    j: int,
    d: &LsblkDevice,
    p: &LsblkPartition,
) -> bool {
    &&& 0 <= i < info.blockdevices@.len()
    &&& *d == info.blockdevices@[i]
    &&& d.children matches Some(c)
    &&& 0 <= j < c@.len()
    &&& *p == c@[j]
}

/// The best mount so far, by indices, by its model, and its length in bytes.
pub open spec fn best_ok(
    ds: Seq<DevModel>,
    best: Option<(usize, usize)>,
    bestg: Option<MountAt>,
    best_len: u128,
) -> bool {
    match best {
        Some((bi, bj)) => {
            &&& bestg matches Some(b)
            &&& b.dev == bi
            &&& b.part == bj
            &&& bi < ds.len()
            &&& ds[bi as int].children matches Some(c)
            &&& bj < c.len()
            &&& c[bj as int].mountpoint == Some(b.mountpoint)
            &&& best_len == utf8_len(b.mountpoint)
        },
        None => bestg is None,
    }
}

impl LsblkInfo {
    /// The devices of the report.
    pub fn get_blk_devices(&self) -> (r: &Vec<LsblkDevice>)
        ensures
            *r == self.blockdevices,
    {
        &self.blockdevices
    }

    /// The one device of a report for a single device; an `InvState` error
    /// where the report holds another number of devices.
    pub fn for_device(lsblk_output: &str) -> (r: Result<LsblkDevice, MigError>)
        ensures
            match lsblk_spec(lsblk_output@) {
                Ok(ds) => if ds.len() == 1 {
                    r matches Ok(d) && d@ == ds[0]
                } else {
                    r matches Err(e) && e.inner.kind == MigErrorKind::InvState
                },
                Err(k) => r matches Err(e) && e.inner.kind == k,
            },
    {
        let mut info = LsblkInfo::from_list(lsblk_output)?;
        if info.blockdevices.len() == 1 {
            let d = info.blockdevices.remove(0);
            Ok(d)
        } else {
            Err(
                MigError::from_remark(
                    MigErrorKind::InvState,
                    "Invalid number of devices found for device query",
                ),
            )
        }
    }

    /// The devices of a report whose major number the migration supports.
    pub fn all(lsblk_output: &str) -> (r: Result<LsblkInfo, MigError>)
        ensures
            match lsblk_spec(lsblk_output@) {
                Ok(ds) => r matches Ok(info) && info@ == supported_devs(ds),
                Err(k) => r matches Err(e) && e.inner.kind == k,
            },
    {
        let info = LsblkInfo::from_list(lsblk_output)?;
        let ghost ds = info@;
        let mut devs = info.blockdevices;
        let mut kept: Vec<LsblkDevice> = Vec::new();
        proof {
            assert(devs_view(kept@) =~= supported_devs(ds.take(0)));
            assert(ds.skip(0) =~= ds);
        }
        while devs.len() > 0
            invariant
                devs_view(devs@) == ds.skip(ds.len() - devs@.len()),
                devs@.len() <= ds.len(),
                devs_view(kept@) == supported_devs(ds.take(ds.len() - devs@.len())),
            decreases devs@.len(),
        {
            let ghost n = ds.len() - devs@.len();
            let ghost old_devs = devs@;
            let d = devs.remove(0);
            proof {
                assert(devs_view(old_devs)[0] == ds.skip(n)[0]);
                assert(ds.skip(n)[0] == d@);
                assert(ds.take(n + 1).drop_last() =~= ds.take(n));
                assert(ds.take(n + 1).last() == d@);
                assert forall|k: int| 0 <= k < devs@.len() implies devs_view(devs@)[k] == ds.skip(
                    n + 1,
                )[k] by {
                    assert(devs@[k] == old_devs[k + 1]);
                    assert(devs_view(old_devs)[k + 1] == ds.skip(n)[k + 1]);
                }
                assert(devs_view(devs@) =~= ds.skip(n + 1));
            }
            let m = str_chars(d.maj_min.as_str());
            if maj_min_supported_exec(m.as_slice()) {
                let ghost before = devs_view(kept@);
                kept.push(d);
                proof {
                    assert(devs_view(kept@) =~= before.push(d@));
                }
            }
        }
        proof {
            assert(ds.take(ds.len() as int) =~= ds);
        }
        Ok(LsblkInfo { blockdevices: kept })
    }

    /// The device and partition whose mount holds the absolute path
    /// `abs_path` (see `best_mount`); a `NotFound` error where no mount
    /// holds it.
    pub fn get_path_devs(&self, abs_path: &str) -> (r: Result<
        (&LsblkDevice, &LsblkPartition),
        MigError,
    >)
        ensures
            match path_devs_spec(self@, abs_path@) {
                Some((i, j)) => r matches Ok((d, p)) && is_dev_part(self, i, j, d, p),
                None => r matches Err(e) && e.inner.kind == MigErrorKind::NotFound,
            },
    {
        let abs = str_chars(abs_path);
        let ghost ds = self@;
        let ghost target = path_devs_spec(ds, abs_path@);
        let mut best: Option<(usize, usize)> = None;
        let mut best_len: u128 = 0;
        let ghost mut bestg: Option<MountAt> = None;
        let mut i: usize = 0;
        while i < self.blockdevices.len()
            invariant
                i <= self.blockdevices@.len(),
                ds == self@,
                abs@ == abs_path@,
                target == path_devs_spec(ds, abs_path@),
                best_mount(dev_mounts(ds, i as int), abs@, bestg) == target,
                best_ok(ds, best, bestg, best_len),
            decreases self.blockdevices@.len() - i,
        {
            let dev = &self.blockdevices[i];
            proof {
                assert(dev_mounts(ds, i as int) == part_mounts(children_of(ds[i as int]), i as int, 0)
                    + dev_mounts(ds, i + 1));
            }
            match &dev.children {
                None => {
                    proof {
                        assert(part_mounts(children_of(ds[i as int]), i as int, 0) =~= Seq::<
                            MountAt,
                        >::empty());
                        assert(dev_mounts(ds, i as int) =~= dev_mounts(ds, i + 1));
                    }
                },
                Some(children) => {
                    let ghost ch = parts_view(children@);
                    assert(children_of(ds[i as int]) == ch);
                    let mut j: usize = 0;
                    while j < children.len()
                        invariant
                            j <= children@.len(),
                            i < self.blockdevices@.len(),
                            ds == self@,
                            ch == parts_view(children@),
                            ds[i as int].children == Some(ch),
                            *dev == self.blockdevices@[i as int],
                            dev.children == Some(*children),
                            abs@ == abs_path@,
                            target == path_devs_spec(ds, abs_path@),
                            best_mount(part_mounts(ch, i as int, j as int) + dev_mounts(ds, i + 1), abs@, bestg) == target,
                            best_ok(ds, best, bestg, best_len),
                        decreases children@.len() - j,
                    {
                        let part = &children[j];
                        let ghost rest = part_mounts(ch, i as int, j + 1) + dev_mounts(ds, i + 1);
                        match &part.mountpoint {
                            None => {
                                proof {
                                    assert(ch[j as int].mountpoint is None);
                                    assert(part_mounts(ch, i as int, j as int) =~= part_mounts(ch, i as int, j + 1));
                                }
                            },
                            Some(mp) => {
                                let ghost c = MountAt { dev: i as int, part: j as int, mountpoint: mp@ };
                                proof {
                                    assert(ch[j as int].mountpoint == Some(mp@));
                                    assert(part_mounts(ch, i as int, j as int) == seq![c] + part_mounts(ch, i as int, j + 1));
                                    let cs = part_mounts(ch, i as int, j as int) + dev_mounts(ds, i + 1);
                                    assert(cs[0] == c);
                                    assert(cs.drop_first() =~= rest);
                                }
                                let mpc = str_chars(mp.as_str());
                                if path_eq(abs.as_slice(), mpc.as_slice()) {
                                    proof {
                                        let cs = part_mounts(ch, i as int, j as int) + dev_mounts(ds, i + 1);
                                        assert(best_mount(cs, abs@, bestg) == Some((i as int, j as int)));
                                        assert(dev.children == Some(*children));
                                        assert(*part == children@[j as int]);
                                    }
                                    return Ok((dev, part));
                                }
                                let len = utf8_len_exec(mpc.as_slice());
                                if path_starts_with_exec(abs.as_slice(), mpc.as_slice()) && (best.is_none()
                                    || best_len < len) {
                                    best = Some((i, j));
                                    best_len = len;
                                    proof {
                                        bestg = Some(c);
                                    }
                                }
                            },
                        }
                        j = j + 1;
                    }
                    proof {
                        assert(part_mounts(ch, i as int, j as int) =~= Seq::<MountAt>::empty());
                        assert(part_mounts(ch, i as int, j as int) + dev_mounts(ds, i + 1) =~= dev_mounts(ds, i + 1));
                    }
                },
            }
            i = i + 1;
        }
        match best {
            Some((bi, bj)) => {
                let dev = &self.blockdevices[bi];
                match &dev.children {
                    Some(children) => Ok((dev, &children[bj])),
                    None => Err(MigError::from_remark(MigErrorKind::NotFound, "A mountpoint could not be found for path")),
                }
            },
            None => Err(
                MigError::from_remark(
                    MigErrorKind::NotFound,
                    "A mountpoint could not be found for path",
                ),
            ),
        }
    }

    /// The device and partition of the partition device path `part_path`
    /// (`/dev/sda1`, say): the first device whose name begins its file name,
    /// and that device's partition of that name. An `InvParam` error where the
    /// path has no file name, a `NotFound` error where no device or partition
    /// fits.
    pub fn get_devinfo_from_partition(&self, part_path: &str) -> (r: Result<
        (&LsblkDevice, &LsblkPartition),
        MigError,
    >)
        ensures
            match file_name(part_path@) {
                None => r matches Err(e) && e.inner.kind == MigErrorKind::InvParam,
                Some(n) => match find_dev_prefix(self@, n, 0) {
                    None => r matches Err(e) && e.inner.kind == MigErrorKind::NotFound,
                    Some(i) => match part_named(self@[i], n) {
                        None => r matches Err(e) && e.inner.kind == MigErrorKind::NotFound,
                        Some(j) => r matches Ok((d, p)) && is_dev_part(self, i, j, d, p),
                    },
                },
            },
    {
        let pc = str_chars(part_path);
        let name = match file_name_exec(pc.as_slice()) {
            Some(n) => n,
            None => {
                return Err(
                    MigError::from_remark(MigErrorKind::InvParam, "The device path is not valid"),
                );
            },
        };
        let mut i: usize = 0;
        while i < self.blockdevices.len()
            invariant
                i <= self.blockdevices@.len(),
                file_name(part_path@) == Some(name@),
                find_dev_prefix(self@, name@, i as int) == find_dev_prefix(self@, name@, 0),
            decreases self.blockdevices@.len() - i,
        {
            let dn = str_chars(self.blockdevices[i].name.as_str());
            proof {
                assert(self@[i as int] == self.blockdevices@[i as int]@);
            }
            if starts_with(name.as_slice(), dn.as_slice()) {
                let n = string_from_chars(name.as_slice());
                proof {
                    assert(is_prefix(self@[i as int].name, name@));
                    assert(find_dev_prefix(self@, name@, i as int) == Some(i as int));
                }
                let ns = n.as_str();
                assert(ns@ == name@);
                let p = self.blockdevices[i].get_devinfo_from_part_name(ns)?;
                return Ok((&self.blockdevices[i], p));
            }
            i = i + 1;
        }
        Err(MigError::from_remark(MigErrorKind::NotFound, "The device was not found in lsblk output"))
    }
}

} // verus!
