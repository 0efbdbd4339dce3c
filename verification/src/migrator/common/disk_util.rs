//! DOS partition tables: the master boot record, the extended boot records
//! chained behind it, and the walk over the partitions they describe.
//!
//! The walk reads blocks from the disk image between its decisions, so it is a
//! state machine: `PartitionIterator::next_step` either yields a partition,
//! asks for the boot record at a block offset (handed back through
//! `supply_mbr`), or ends.
use vstd::prelude::*;

use crate::common::{Error, ErrorKind};
use crate::migrator::common::mig_error::{MigError, MigErrorKind};

verus! {

pub const DEF_BLOCK_SIZE: usize = 512;

#[derive(Debug, Clone, Copy, PartialEq, Eq, Structural)]
pub enum LabelType {
    GPT,
    Dos,
    Other,
}

#[derive(Debug, Clone, Copy, PartialEq, Eq, Structural)]
pub enum PartitionType {
    Container,
    Fat,
    Linux,
    Empty,
    GPT,
    Other,
}

/// The type that a partition table entry's type byte stands for.
pub open spec fn ptype_spec(ptype: u8) -> PartitionType {
    if ptype == 0x00 {
        PartitionType::Empty
    } else if ptype == 0x05 || ptype == 0x0f {
        PartitionType::Container
    } else if ptype == 0xee {
        PartitionType::GPT
    } else if ptype == 0x0c || ptype == 0x0e {
        PartitionType::Fat
    } else if ptype == 0x83 {
        PartitionType::Linux
    } else {
        PartitionType::Other
    }
}

impl PartitionType {
    pub fn from_ptype(ptype: u8) -> (r: PartitionType)
        ensures
            r == ptype_spec(ptype),
    {
        match ptype {
            0x00 => PartitionType::Empty,
            0x05 | 0x0f => PartitionType::Container,
            0xee => PartitionType::GPT,
            0x0c | 0x0e => PartitionType::Fat,
            0x83 => PartitionType::Linux,
            _ => PartitionType::Other,
        }
    }
}

/// One of the four entries of a boot record's partition table.
#[derive(Debug, Clone, Copy)]
pub struct PartEntry {
    pub status: u8,
    pub first_head: u8,
    pub first_comb: u8,
    pub first_cyl: u8,
    pub ptype: u8,
    pub last_head: u8,
    pub last_comb: u8,
    pub last_cyl: u8,
    pub first_lba: u32,
    pub num_sectors: u32,
}

/// A boot record: the fields that the walk reads.
#[derive(Debug, Clone, Copy)]
pub struct MasterBootRecord {
    pub zeros: [u8; 2],
    pub disk_sig_32: [u8; 4],
    pub part_tbl: [PartEntry; 4],
    pub boot_sig1: u8,
    pub boot_sig2: u8,
}

pub const MBR_ZEROS_OFFSET: usize = 218;
pub const MBR_DISK_SIG_OFFSET: usize = 440;
pub const MBR_PART_TBL_OFFSET: usize = 446;
pub const MBR_BOOT_SIG_OFFSET: usize = 510;

/// Little endian 32 bit number at `off`.
pub open spec fn le_u32(b: Seq<u8>, off: int) -> nat {
    b[off] as nat + 256 * b[off + 1] as nat + 65536 * b[off + 2] as nat + 16777216 * b[off
        + 3] as nat
}

/// The `i`-th entry of the table in the boot record block `b`.
pub open spec fn entry_matches(e: PartEntry, b: Seq<u8>, i: int) -> bool {
    let o = MBR_PART_TBL_OFFSET + 16 * i;
    &&& e.status == b[o]
    &&& e.first_head == b[o + 1]
    &&& e.first_comb == b[o + 2]
    &&& e.first_cyl == b[o + 3]
    &&& e.ptype == b[o + 4]
    &&& e.last_head == b[o + 5]
    &&& e.last_comb == b[o + 6]
    &&& e.last_cyl == b[o + 7]
    &&& e.first_lba == le_u32(b, o + 8)
    &&& e.num_sectors == le_u32(b, o + 12)
}

/// The boot record holds the fields of the block `b`.
pub open spec fn mbr_matches(m: MasterBootRecord, b: Seq<u8>) -> bool {
    &&& m.zeros@ == b.subrange(218, 220)
    &&& m.disk_sig_32@ == b.subrange(440, 444)
    &&& forall|i: int| 0 <= i < 4 ==> entry_matches(#[trigger] m.part_tbl@[i], b, i)
    &&& m.boot_sig1 == b[510]
    &&& m.boot_sig2 == b[511]
}

/// A block is a boot record where it ends with the signature `0x55 0xAA`.
pub open spec fn has_boot_signature(b: Seq<u8>) -> bool {
    b[510] == 0x55 && b[511] == 0xAA
}

fn read_le_u32(b: &[u8], off: usize) -> (r: u32)
    requires
        off + 4 <= b@.len(),
    ensures
        r == le_u32(b@, off as int),
{
    let r: u64 = b[off] as u64 + 256 * (b[off + 1] as u64) + 65536 * (b[off + 2] as u64)
        + 16777216 * (b[off + 3] as u64);
    r as u32
}

fn read_entry(b: &[u8], i: usize) -> (e: PartEntry)
    requires
        b@.len() == DEF_BLOCK_SIZE,
        i < 4,
    ensures
        entry_matches(e, b@, i as int),
{
    let o = MBR_PART_TBL_OFFSET + 16 * i;
    PartEntry {
        status: b[o],
        first_head: b[o + 1],
        first_comb: b[o + 2],
        first_cyl: b[o + 3],
        ptype: b[o + 4],
        last_head: b[o + 5],
        last_comb: b[o + 6],
        last_cyl: b[o + 7],
        first_lba: read_le_u32(b, o + 8),
        num_sectors: read_le_u32(b, o + 12),
    }
}

impl MasterBootRecord {
    /// Read a boot record from a block; an `InvParam` error where the block
    /// lacks the boot signature.
    pub fn from_block(b: &[u8]) -> (r: Result<MasterBootRecord, Error>)
        requires
            b@.len() == DEF_BLOCK_SIZE,
        ensures
            has_boot_signature(b@) ==> (r matches Ok(m) && mbr_matches(m, b@)),
            !has_boot_signature(b@) ==> (r matches Err(e) && e.kind == ErrorKind::InvParam),
    {
        if b[510] != 0x55 || b[511] != 0xAA {
            return Err(
                Error::with_context(
                    ErrorKind::InvParam,
                    "Encountered an invalid MBR signature, expected 0x55, 0xAA",
                ),
            );
        }
        let m = MasterBootRecord {
            zeros: [b[218], b[219]],
            disk_sig_32: [b[440], b[441], b[442], b[443]],
            part_tbl: [read_entry(b, 0), read_entry(b, 1), read_entry(b, 2), read_entry(b, 3)],
            boot_sig1: b[510],
            boot_sig2: b[511],
        };
        assert(m.zeros@ =~= b@.subrange(218, 220));
        assert(m.disk_sig_32@ =~= b@.subrange(440, 444));
        Ok(m)
    }

    /// The disk signature: the little endian number at bytes 440 to 443, where
    /// bytes 218 and 219 are zero and the number is not.
    pub fn get_disk_id(&self) -> (r: Option<u32>)
        ensures
            r == (if self.zeros@[0] == 0 && self.zeros@[1] == 0 && le_u32(self.disk_sig_32@, 0)
                != 0 {
                Some(le_u32(self.disk_sig_32@, 0) as u32)
            } else {
                None
            }),
    {
        if self.zeros[0] == 0 && self.zeros[1] == 0 {
            let d = &self.disk_sig_32;
            let v: u64 = d[0] as u64 + 256 * (d[1] as u64) + 65536 * (d[2] as u64) + 16777216 * (
            d[3] as u64);
            if v != 0 {
                Some(v as u32)
            } else {
                None
            }
        } else {
            None
        }
    }
}

/// The label type of a disk, given its first block.
pub open spec fn label_spec(b: Seq<u8>) -> LabelType {
    if !has_boot_signature(b) {
        LabelType::Other
    } else if ptype_spec(b[MBR_PART_TBL_OFFSET + 4]) == PartitionType::GPT {
        LabelType::GPT
    } else {
        LabelType::Dos
    }
}

impl LabelType {
    /// The label type of a disk, given its first block: `Other` where that is
    /// no boot record, `GPT` where its first entry is a protective GPT entry,
    /// `Dos` otherwise.
    pub fn from_device(b: &[u8]) -> (r: LabelType)
        requires
            b@.len() == DEF_BLOCK_SIZE,
        ensures
            r == label_spec(b@),
    {
        match MasterBootRecord::from_block(b) {
            Ok(mbr) => match PartitionType::from_ptype(mbr.part_tbl[0].ptype) {
                PartitionType::GPT => LabelType::GPT,
                _ => LabelType::Dos,
            },
            Err(_) => LabelType::Other,
        }
    }
}

/// A partition found on a disk; `index` counts from one, logical partitions
/// from five.
#[derive(Debug, Clone, Copy, PartialEq, Eq, Structural)]
pub struct PartInfo {
    pub index: usize,
    pub ptype: u8,
    pub status: u8,
    pub start_lba: u64,
    pub num_sectors: u64,
}

impl PartInfo {
    /// Whether the partition's boot flag (bit 7 of its status) is set.
    pub fn is_bootable(&self) -> (r: bool)
        ensures
            r == (self.status >= 0x80),
    {
        let status = self.status;
        let r = (status & 0x80) == 0x80;
        assert(r == (status >= 0x80)) by (bit_vector)
            requires
                r == ((status & 0x80) == 0x80),
        ;
        r
    }
}

/// What the walk does next.
#[derive(Debug)]
pub enum PartStep {
    /// A partition was found.
    Partition(PartInfo),
    /// Read the boot record in the block at this offset and hand it back.
    ReadMbr(u64),
    /// No more partitions: the table ended, or it holds an entry that the
    /// walk does not support, which ends the walk as well.
    End,
}

/// Why the walk waits for a boot record.
#[derive(Debug, Clone, Copy, PartialEq, Eq, Structural)]
pub enum Awaiting {
    /// The first record of the extended partition, after which the walk
    /// continues in it.
    ExtendedStart,
    /// The next record of the chain, after which this partition is yielded.
    ExtendedNext(PartInfo),
}

/// The walk over the partitions of a DOS partition table.
#[derive(Debug)]
pub struct PartitionIterator {
    pub mbr: MasterBootRecord,
    pub offset: u64,
    pub index: usize,
    pub part_idx: usize,
    pub disk_id: Option<u32>,
    pub done: bool,
    pub awaiting: Option<Awaiting>,
    pub resume_extended: bool,
    pub pending: Option<PartInfo>,
}

/// The walk's state, as the contracts see it.
pub struct IterState {
    pub mbr: MasterBootRecord,
    pub offset: u64,
    pub index: usize,
    pub part_idx: usize,
    pub done: bool,
    pub awaiting: Option<Awaiting>,
    pub resume_extended: bool,
    pub pending: Option<PartInfo>,
}

/// The outcome of a step, as the contracts see it.
pub enum StepKind {
    Partition(PartInfo),
    ReadMbr(u64),
    End,
}

pub open spec fn step_kind(s: PartStep) -> StepKind {
    match s {
        PartStep::Partition(p) => StepKind::Partition(p),
        PartStep::ReadMbr(o) => StepKind::ReadMbr(o),
        PartStep::End => StepKind::End,
    }
}

/// A step through the chain of extended boot records: the first entry of the
/// current record is a logical partition, and the second one links to the
/// next record or ends the chain.
pub open spec fn extended_step(s: IterState) -> (IterState, StepKind) {
    let part = s.mbr.part_tbl@[0];
    let next = s.mbr.part_tbl@[1];
    if s.done {
        (s, StepKind::End)
    } else {
        match ptype_spec(part.ptype) {
            PartitionType::Empty => (IterState { done: true, resume_extended: false, ..s }, StepKind::End),
            PartitionType::Fat | PartitionType::Linux => {
                let idx = s.part_idx + 1;
                let start = s.offset + part.first_lba;
                if idx > usize::MAX || start > u64::MAX {
                    (IterState { done: true, resume_extended: false, ..s }, StepKind::End)
                } else {
                    let info = PartInfo {
                        index: idx as usize,
                        ptype: part.ptype,
                        status: part.status,
                        start_lba: start as u64,
                        num_sectors: part.num_sectors as u64,
                    };
                    let s1 = IterState { part_idx: idx as usize, resume_extended: false, ..s };
                    match ptype_spec(next.ptype) {
                        PartitionType::Empty => (
                            IterState { done: true, ..s1 },
                            StepKind::Partition(info),
                        ),
                        PartitionType::Container => {
                            let off = s.offset + next.first_lba;
                            if off > u64::MAX {
                                (IterState { done: true, ..s1 }, StepKind::End)
                            } else {
                                (
                                    IterState {
                                        offset: off as u64,
                                        awaiting: Some(Awaiting::ExtendedNext(info)),
                                        ..s1
                                    },
                                    StepKind::ReadMbr(off as u64),
                                )
                            }
                        },
                        _ => (IterState { done: true, ..s1 }, StepKind::End),
                    }
                }
            },
            _ => (IterState { done: true, resume_extended: false, ..s }, StepKind::End),
        }
    }
}

/// A step through the four entries of the master boot record.
pub open spec fn regular_step(s: IterState) -> (IterState, StepKind) {
    if s.done {
        (s, StepKind::End)
    } else if s.index >= 4 {
        (s, StepKind::End)
    } else {
        let part = s.mbr.part_tbl@[s.index as int];
        match ptype_spec(part.ptype) {
            PartitionType::Empty => (IterState { done: true, ..s }, StepKind::End),
            PartitionType::Container => (
                IterState {
                    offset: part.first_lba as u64,
                    part_idx: 4,
                    awaiting: Some(Awaiting::ExtendedStart),
                    ..s
                },
                StepKind::ReadMbr(part.first_lba as u64),
            ),
            PartitionType::Fat | PartitionType::Linux => {
                if s.part_idx + 1 > usize::MAX {
                    (IterState { done: true, ..s }, StepKind::End)
                } else {
                    let idx = (s.part_idx + 1) as usize;
                    (
                        IterState { index: (s.index + 1) as usize, part_idx: idx, ..s },
                        StepKind::Partition(
                            PartInfo {
                                index: idx,
                                ptype: part.ptype,
                                status: part.status,
                                start_lba: part.first_lba as u64,
                                num_sectors: part.num_sectors as u64,
                            },
                        ),
                    )
                }
            },
            _ => (IterState { done: true, ..s }, StepKind::End),
        }
    }
}

/// One step of the walk: a partition held back for a boot record read is
/// yielded once the read is done; a pending read is asked for again; the walk
/// continues in the extended partition right after entering it, and otherwise
/// in the master boot record while its offset is zero.
pub open spec fn step_spec(s: IterState) -> (IterState, StepKind) {
    if s.awaiting is Some {
        (s, StepKind::ReadMbr(s.offset))
    } else if s.pending is Some {
        (IterState { pending: None, ..s }, StepKind::Partition(s.pending->0))
    } else if s.resume_extended || s.offset != 0 {
        extended_step(s)
    } else {
        regular_step(s)
    }
}

impl PartitionIterator {
    pub open spec fn state(&self) -> IterState {
        IterState {
            mbr: self.mbr,
            offset: self.offset,
            index: self.index,
            part_idx: self.part_idx,
            done: self.done,
            awaiting: self.awaiting,
            resume_extended: self.resume_extended,
            pending: self.pending,
        }
    }

    /// Start the walk at the master boot record, the disk's first block; an
    /// `InvParam` error where that block is no boot record.
    pub fn new(mbr_block: &[u8]) -> (r: Result<PartitionIterator, Error>)
        requires
            mbr_block@.len() == DEF_BLOCK_SIZE,
        ensures
            has_boot_signature(mbr_block@) ==> (r matches Ok(it) && {
                &&& mbr_matches(it.mbr, mbr_block@)
                &&& it.offset == 0
                &&& it.index == 0
                &&& it.part_idx == 0
                &&& !it.done
                &&& it.awaiting is None
                &&& !it.resume_extended
                &&& it.pending is None
                &&& it.disk_id == (if it.mbr.zeros@[0] == 0 && it.mbr.zeros@[1] == 0 && le_u32(
                    it.mbr.disk_sig_32@,
                    0,
                ) != 0 {
                    Some(le_u32(it.mbr.disk_sig_32@, 0) as u32)
                } else {
                    None
                })
            }),
            !has_boot_signature(mbr_block@) ==> (r matches Err(e) && e.kind == ErrorKind::InvParam),
    {
        let mbr = MasterBootRecord::from_block(mbr_block)?;
        let disk_id = mbr.get_disk_id();
        Ok(
            PartitionIterator {
                mbr,
                offset: 0,
                index: 0,
                part_idx: 0,
                disk_id,
                done: false,
                awaiting: None,
                resume_extended: false,
                pending: None,
            },
        )
    }

    pub fn get_disk_id(&self) -> (r: &Option<u32>)
        ensures
            *r == self.disk_id,
    {
        &self.disk_id
    }

    fn extended_step_exec(&mut self) -> (r: PartStep)
        ensures
            (final(self).state(), step_kind(r)) == extended_step(old(self).state()),
            final(self).disk_id == old(self).disk_id,
    {
        if self.done {
            return PartStep::End;
        }
        self.resume_extended = false;
        let part = self.mbr.part_tbl[0];
        let next = self.mbr.part_tbl[1];
        match PartitionType::from_ptype(part.ptype) {
            PartitionType::Empty => {
                self.done = true;
                PartStep::End
            },
            PartitionType::Fat | PartitionType::Linux => {
                if self.part_idx == usize::MAX || self.offset > u64::MAX - part.first_lba as u64 {
                    self.done = true;
                    return PartStep::End;
                }
                self.part_idx = self.part_idx + 1;
                let info = PartInfo {
                    index: self.part_idx,
                    ptype: part.ptype,
                    status: part.status,
                    start_lba: self.offset + part.first_lba as u64,
                    num_sectors: part.num_sectors as u64,
                };
                match PartitionType::from_ptype(next.ptype) {
                    PartitionType::Empty => {
                        self.done = true;
                        PartStep::Partition(info)
                    },
                    PartitionType::Container => {
                        if self.offset > u64::MAX - next.first_lba as u64 {
                            self.done = true;
                            return PartStep::End;
                        }
                        self.offset = self.offset + next.first_lba as u64;
                        self.awaiting = Some(Awaiting::ExtendedNext(info));
                        PartStep::ReadMbr(self.offset)
                    },
                    _ => {
                        self.done = true;
                        PartStep::End
                    },
                }
            },
            _ => {
                self.done = true;
                PartStep::End
            },
        }
    }

    fn regular_step_exec(&mut self) -> (r: PartStep)
        ensures
            (final(self).state(), step_kind(r)) == regular_step(old(self).state()),
            final(self).disk_id == old(self).disk_id,
    {
        if self.done || self.index >= 4 {
            return PartStep::End;
        }
        let part = self.mbr.part_tbl[self.index];
        match PartitionType::from_ptype(part.ptype) {
            PartitionType::Empty => {
                self.done = true;
                PartStep::End
            },
            PartitionType::Container => {
                self.offset = part.first_lba as u64;
                self.part_idx = 4;
                self.awaiting = Some(Awaiting::ExtendedStart);
                PartStep::ReadMbr(self.offset)
            },
            PartitionType::Fat | PartitionType::Linux => {
                if self.part_idx == usize::MAX {
                    self.done = true;
                    return PartStep::End;
                }
                self.index = self.index + 1;
                self.part_idx = self.part_idx + 1;
                PartStep::Partition(
                    PartInfo {
                        index: self.part_idx,
                        ptype: part.ptype,
                        status: part.status,
                        start_lba: part.first_lba as u64,
                        num_sectors: part.num_sectors as u64,
                    },
                )
            },
            _ => {
                self.done = true;
                PartStep::End
            },
        }
    }

    /// The next step of the walk (see `step_spec`).
    pub fn next_step(&mut self) -> (r: PartStep)
        ensures
            (final(self).state(), step_kind(r)) == step_spec(old(self).state()),
            final(self).disk_id == old(self).disk_id,
    {
        if self.awaiting.is_some() {
            return PartStep::ReadMbr(self.offset);
        }
        if let Some(p) = self.pending {
            self.pending = None;
            return PartStep::Partition(p);
        }
        if self.resume_extended || self.offset != 0 {
            self.extended_step_exec()
        } else {
            self.regular_step_exec()
        }
    }

    /// Hand back the boot record that the walk asked for. Where the block is
    /// no boot record the walk cannot go on: an `InvParam` error, and the walk
    /// ends there, the partition it waited with given up.
    pub fn supply_mbr(&mut self, block: &[u8]) -> (r: Result<(), Error>)
        requires
            block@.len() == DEF_BLOCK_SIZE,
            old(self).awaiting is Some,
        ensures
            final(self).disk_id == old(self).disk_id,
            has_boot_signature(block@) ==> (r is Ok && mbr_matches(final(self).mbr, block@)
                && final(self).awaiting is None && final(self).offset == old(self).offset
                && final(self).index == old(self).index && final(self).part_idx == old(
                self,
            ).part_idx && final(self).done == old(self).done && match old(self).awaiting {
                Some(Awaiting::ExtendedStart) => final(self).resume_extended
                    && final(self).pending == old(self).pending,
                Some(Awaiting::ExtendedNext(p)) => final(self).pending == Some(p)
                    && final(self).resume_extended == old(self).resume_extended,
                None => false,
            }),
            !has_boot_signature(block@) ==> (r matches Err(e) && e.kind == ErrorKind::InvParam
                && final(self).state() == (IterState {
                done: true,
                awaiting: None,
                ..old(self).state()
            })),
    {
        let mbr = match MasterBootRecord::from_block(block) {
            Ok(m) => m,
            Err(e) => {
                self.done = true;
                self.awaiting = None;
                return Err(e);
            },
        };
        self.mbr = mbr;
        match self.awaiting {
            Some(Awaiting::ExtendedStart) => {
                self.resume_extended = true;
            },
            Some(Awaiting::ExtendedNext(p)) => {
                self.pending = Some(p);
            },
            None => {},
        }
        self.awaiting = None;
        Ok(())
    }
}

/// In the master boot record, an entry of type `0x05` or `0x0f` (an extended
/// partition, as CHS or LBA) is followed: the walk asks for the boot record
/// at the entry's first block, and a data partition in the first entry of
/// that record comes out as partition 5, at the extended partition's start
/// plus its own offset: at once where the record ends the chain, or, where
/// it links to a further record (`0x05` or `0x0f` again), once the walk has
/// read the record at that link and been handed it (`ebr2`).
pub proof fn law_extended_partition_followed(
    s: IterState,
    ebr: MasterBootRecord,
    ebr2: MasterBootRecord,
)
    requires
        s.offset == 0,
        !s.resume_extended,
        s.awaiting is None,
        s.pending is None,
        !s.done,
        s.index < 4,
        s.mbr.part_tbl@[s.index as int].ptype == 0x05 || s.mbr.part_tbl@[s.index as int].ptype
            == 0x0f,
        ebr.part_tbl@[0].ptype == 0x83 || ebr.part_tbl@[0].ptype == 0x0c
            || ebr.part_tbl@[0].ptype == 0x0e,
        ebr.part_tbl@[1].ptype == 0x00 || ebr.part_tbl@[1].ptype == 0x05
            || ebr.part_tbl@[1].ptype == 0x0f,
    ensures
        ({
            let first = s.mbr.part_tbl@[s.index as int].first_lba;
            let info = PartInfo {
                index: 5,
                ptype: ebr.part_tbl@[0].ptype,
                status: ebr.part_tbl@[0].status,
                start_lba: (first + ebr.part_tbl@[0].first_lba) as u64,
                num_sectors: ebr.part_tbl@[0].num_sectors as u64,
            };
            let (s1, k1) = step_spec(s);
            let s2 = IterState { mbr: ebr, awaiting: None, resume_extended: true, ..s1 };
            let (s3, k3) = step_spec(s2);
            &&& k1 == StepKind::ReadMbr(first as u64)
            &&& s1.awaiting == Some(Awaiting::ExtendedStart)
            &&& (ebr.part_tbl@[1].ptype == 0x00 ==> k3 == StepKind::Partition(info))
            &&& (ebr.part_tbl@[1].ptype != 0x00 ==> {
                &&& k3 == StepKind::ReadMbr((first + ebr.part_tbl@[1].first_lba) as u64)
                &&& s3.awaiting == Some(Awaiting::ExtendedNext(info))
                &&& step_spec(
                    IterState { mbr: ebr2, awaiting: None, pending: Some(info), ..s3 },
                ).1 == StepKind::Partition(info)
            })
        }),
{
}

/// The walk is in the master boot record.
pub open spec fn in_primary_table(s: IterState) -> bool {
    s.offset == 0 && !s.resume_extended && s.awaiting is None
}

/// Every extended partition entry of the table points away from block zero.
pub open spec fn containers_off_zero(m: MasterBootRecord) -> bool {
    forall|i: int|
        0 <= i < 4 && ptype_spec(#[trigger] m.part_tbl@[i].ptype) == PartitionType::Container
            ==> m.part_tbl@[i].first_lba != 0
}

/// The invariant of the walk: in the master boot record the partition count is
/// the entry index; once the walk has left it, the offset is not zero; a held
/// back partition carries the latest number.
pub open spec fn iter_wf(s: IterState) -> bool {
    &&& (in_primary_table(s) ==> s.part_idx == s.index && s.index <= 4 && s.pending is None)
    &&& (!in_primary_table(s) ==> s.offset != 0)
    &&& (s.pending matches Some(p) ==> p.index == s.part_idx)
    &&& (s.awaiting matches Some(Awaiting::ExtendedNext(p)) ==> p.index == s.part_idx)
    &&& !(s.pending is Some && s.awaiting is Some)
}

/// Every step keeps the invariant, never lowers the partition count, and a
/// yielded partition carries a number above every number yielded before it.
/// (A table whose extended partition entry points at block zero would lead the
/// walk back into the master boot record; such tables are left out.)
pub proof fn law_step_numbers_increase(s: IterState)
    requires
        iter_wf(s),
        in_primary_table(s) ==> containers_off_zero(s.mbr),
    ensures
        iter_wf(step_spec(s).0),
        step_spec(s).0.part_idx >= s.part_idx,
        step_spec(s).1 matches StepKind::Partition(p) ==> p.index == step_spec(s).0.part_idx && (
        p.index > s.part_idx || s.pending is Some),
        s.pending matches Some(p) ==> step_spec(s).1 == StepKind::Partition(p),
{
    if in_primary_table(s) && s.awaiting is None && s.pending is None && !s.done && s.index < 4 {
        let part = s.mbr.part_tbl@[s.index as int];
        assert(ptype_spec(part.ptype) == PartitionType::Container ==> part.first_lba != 0);
    }
}

/// A block handed back keeps the invariant: the held back partition is the one
/// the walk was waiting with.
pub proof fn law_supply_keeps_numbers(s: IterState, m: MasterBootRecord)
    requires
        iter_wf(s),
        s.awaiting is Some,
    ensures
        iter_wf(
            match s.awaiting {
                Some(Awaiting::ExtendedStart) => IterState {
                    mbr: m,
                    awaiting: None,
                    resume_extended: true,
                    ..s
                },
                Some(Awaiting::ExtendedNext(p)) => IterState {
                    mbr: m,
                    awaiting: None,
                    pending: Some(p),
                    ..s
                },
                None => s,
            },
        ),
{
}

/// The boot and data partitions of a balenaOS image, from the partitions as
/// the walk yields them: the first one numbered 1, then the one numbered 5,
/// where the walk stops; numbers 2 to 4 are passed over and any other number
/// is an error.
pub open spec fn balena_parts_spec(
    parts: Seq<PartInfo>,
    boot: Option<PartInfo>,
) -> Result<(PartInfo, PartInfo), ()>
    decreases parts.len(),
{
    if parts.len() == 0 {
        Err(())
    } else {
        let p = parts[0];
        if p.index == 1 {
            balena_parts_spec(parts.drop_first(), Some(p))
        } else if 2 <= p.index <= 4 {
            balena_parts_spec(parts.drop_first(), boot)
        } else if p.index == 5 {
            match boot {
                Some(b) => Ok((b, p)),
                None => Err(()),
            }
        } else {
            Err(())
        }
    }
}

/// What a partition yielded by the walk does to the search for the balenaOS
/// boot and data partitions.
#[derive(Debug, Clone, Copy, PartialEq, Eq, Structural)]
pub enum BalenaPick {
    /// Go on with the boot partition found so far.
    Next(Option<PartInfo>),
    /// Both were found; the walk stops.
    Found(PartInfo, PartInfo),
    /// The partition cannot be part of a balenaOS image, or the data
    /// partition came without a boot partition.
    Invalid,
}

/// One partition of the search (see `balena_parts_spec`): number 1 is the
/// boot partition, 2 to 4 are passed over, 5 is the data partition.
pub fn balena_pick(boot: Option<PartInfo>, p: PartInfo) -> (r: BalenaPick)
    ensures
        p.index == 1 ==> r == BalenaPick::Next(Some(p)),
        2 <= p.index <= 4 ==> r == BalenaPick::Next(boot),
        p.index == 5 ==> r == match boot {
            Some(b) => BalenaPick::Found(b, p),
            None => BalenaPick::Invalid,
        },
        (p.index == 0 || p.index > 5) ==> r == BalenaPick::Invalid,
        balena_parts_spec(seq![p], boot) is Ok <==> r is Found,
{
    proof {
        assert(seq![p].drop_first() =~= Seq::<PartInfo>::empty());
        reveal_with_fuel(balena_parts_spec, 2);
    }
    if p.index == 1 {
        BalenaPick::Next(Some(p))
    } else if 2 <= p.index && p.index <= 4 {
        BalenaPick::Next(boot)
    } else if p.index == 5 {
        match boot {
            Some(b) => BalenaPick::Found(b, p),
            None => BalenaPick::Invalid,
        }
    } else {
        BalenaPick::Invalid
    }
}

/// Going through the partitions one by one with `balena_pick` finds what
/// `balena_parts_spec` says: a partition that goes on leaves the rest of the
/// search to the partitions after it.
pub proof fn law_balena_pick_steps(p: PartInfo, rest: Seq<PartInfo>, boot: Option<PartInfo>)
    ensures
        balena_parts_spec(seq![p] + rest, boot) == (if p.index == 1 {
            balena_parts_spec(rest, Some(p))
        } else if 2 <= p.index <= 4 {
            balena_parts_spec(rest, boot)
        } else if p.index == 5 {
            match boot {
                Some(b) => Ok((b, p)),
                None => Err(()),
            }
        } else {
            Err(())
        }),
{
    assert((seq![p] + rest).drop_first() =~= rest);
    assert((seq![p] + rest)[0] == p);
}

/// Pick the boot and data partitions of a flashed balenaOS image (see
/// `balena_parts_spec`); a `Displayed` error where they cannot be found.
pub fn balena_partitions(parts: &[PartInfo]) -> (r: Result<(PartInfo, PartInfo), Error>)
    ensures
        match balena_parts_spec(parts@, None) {
            Ok((b, d)) => r matches Ok((b2, d2)) && b2 == b && d2 == d,
            Err(_) => r matches Err(e) && e.kind == ErrorKind::Displayed,
        },
{
    let mut boot: Option<PartInfo> = None;
    let mut i: usize = 0;
    proof {
        assert(parts@.skip(0) =~= parts@);
    }
    while i < parts.len()
        invariant
            i <= parts@.len(),
            balena_parts_spec(parts@.skip(i as int), boot) == balena_parts_spec(parts@, None),
        decreases parts@.len() - i,
    {
        let p = parts[i];
        proof {
            assert(parts@.skip(i as int)[0] == p);
            assert(parts@.skip(i as int).drop_first() =~= parts@.skip(i + 1));
        }
        if p.index == 1 {
            boot = Some(p);
        } else if 2 <= p.index && p.index <= 4 {
        } else if p.index == 5 {
            match boot {
                Some(b) => {
                    return Ok((b, p));
                },
                None => {
                    return Err(
                        Error::with_context(ErrorKind::Displayed, "Boot partition could not be found"),
                    );
                },
            }
        } else {
            return Err(
                Error::with_context(ErrorKind::Displayed, "Invalid partition index encountered"),
            );
        }
        i = i + 1;
    }
    Err(Error::with_context(ErrorKind::Displayed, "Data partition could not be found"))
}

// ---------------------------------------------------------------------------
// Seeking in a decompressed image
// ---------------------------------------------------------------------------

/// Bytes read at a time while skipping forward in a decompressed image.
pub const DEF_READ_BUFFER: usize = 1048576;

/// How a seek in a decompressed image starts.
#[derive(Debug, Clone, Copy, PartialEq, Eq, Structural)]
pub enum SeekStart {
    /// Open the image again and skip from its start.
    Reopen { to_skip: u64 },
    /// Skip forward from where the decoder stands.
    Skip { to_skip: u64 },
}

/// A seek in an image file: backwards, the file is opened again and the
/// decoder skips from the start; forwards, it skips the difference. Either
/// way the decoder ends at `offset`.
pub fn file_seek_start(bytes_read: u64, offset: u64) -> (r: SeekStart)
    ensures
        offset < bytes_read ==> r == (SeekStart::Reopen { to_skip: offset }),
        offset >= bytes_read ==> r == (SeekStart::Skip { to_skip: (offset - bytes_read) as u64 }),
        r matches SeekStart::Reopen { to_skip } ==> to_skip == offset,
        r matches SeekStart::Skip { to_skip } ==> bytes_read + to_skip == offset,
{
    if offset < bytes_read {
        SeekStart::Reopen { to_skip: offset }
    } else {
        SeekStart::Skip { to_skip: offset - bytes_read }
    }
}

/// A seek in a stream, which cannot go back: the bytes to skip, or an
/// `InvState` error for a seek backwards.
pub fn stream_seek_start(bytes_read: u64, offset: u64) -> (r: Result<u64, MigError>)
    ensures
        offset < bytes_read ==> (r matches Err(e) && e.inner.kind == MigErrorKind::InvState),
        offset >= bytes_read ==> (r matches Ok(n) && bytes_read + n == offset),
{
    if offset < bytes_read {
        Err(MigError::from_remark(MigErrorKind::InvState, "cannot seek backwards on stream"))
    } else {
        Ok(offset - bytes_read)
    }
}

/// The next read while skipping.
#[derive(Debug, Clone, Copy, PartialEq, Eq, Structural)]
pub enum SkipRead {
    /// A read into a full buffer, which may return fewer bytes.
    Chunk,
    /// Exactly this many bytes.
    Exact(u64),
    /// Nothing is left to skip.
    Done,
}

/// While at least a buffer's worth is left, read into the whole buffer; then
/// read the rest exactly.
pub fn skip_next(to_skip: u64) -> (r: SkipRead)
    ensures
        to_skip >= DEF_READ_BUFFER ==> r == SkipRead::Chunk,
        0 < to_skip < DEF_READ_BUFFER ==> r == SkipRead::Exact(to_skip),
        to_skip == 0 ==> r == SkipRead::Done,
{
    if to_skip >= DEF_READ_BUFFER as u64 {
        SkipRead::Chunk
    } else if to_skip > 0 {
        SkipRead::Exact(to_skip)
    } else {
        SkipRead::Done
    }
}

/// What is left to skip after a chunk read returned `got` bytes.
pub fn after_chunk(to_skip: u64, got: usize) -> (r: u64)
    requires
        got <= DEF_READ_BUFFER <= to_skip,
    ensures
        r == to_skip - got,
{
    to_skip - got as u64
}

/// Where the decoder stands after a buffer was filled from `offset`.
pub fn position_after_fill(offset: u64, len: usize) -> (r: u64)
    requires
        offset + len <= u64::MAX,
    ensures
        r == offset + len,
{
    offset + len as u64
}

// ---------------------------------------------------------------------------
// Reading one partition
// ---------------------------------------------------------------------------

/// A read cursor over the bytes of one partition of a disk image.
#[derive(Debug, Clone, Copy, PartialEq, Eq, Structural)]
pub struct PartitionReader {
    pub offset: u64,
    pub bytes_left: u64,
}

impl PartitionReader {
    /// The cursor at the start of `part`, whose sectors are `block_size`
    /// bytes long.
    pub fn from_part(part: &PartInfo, block_size: u64) -> (r: PartitionReader)
        requires
            part.start_lba * block_size <= u64::MAX,
            part.num_sectors * block_size <= u64::MAX,
        ensures
            r.offset == part.start_lba * block_size,
            r.bytes_left == part.num_sectors * block_size,
    {
        PartitionReader {
            offset: part.start_lba * block_size,
            bytes_left: part.num_sectors * block_size,
        }
    }

    /// How many bytes the next read into a buffer of `buf_len` bytes takes:
    /// the buffer full, or what is left of the partition.
    pub fn next_read(&self, buf_len: usize) -> (r: usize)
        ensures
            r as int == if (self.bytes_left as int) < (buf_len as int) {
                self.bytes_left as int
            } else {
                buf_len as int
            },
            r <= buf_len,
            r <= self.bytes_left,
    {
        if self.bytes_left < buf_len as u64 {
            self.bytes_left as usize
        } else {
            buf_len
        }
    }

    /// Move past `size` bytes that were read. The end of the partition,
    /// `offset + bytes_left`, stays where it was.
    pub fn advance(&mut self, size: usize)
        requires
            size <= old(self).bytes_left,
            old(self).offset + size <= u64::MAX,
        ensures
            final(self).offset == old(self).offset + size,
            final(self).bytes_left == old(self).bytes_left - size,
            final(self).offset + final(self).bytes_left == old(self).offset + old(self).bytes_left,
    {
        self.offset = self.offset + size as u64;
        self.bytes_left = self.bytes_left - size as u64;
    }
}

} // verus!
