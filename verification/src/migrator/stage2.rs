//! Stage 2 of the migrator: what it copies to memory, which partitions it
//! gives up, how it writes and checks the image and in which order it works.
use vstd::prelude::*;

pub mod loop_device;

use crate::common::defs::{
    BACKUP_ARCH_NAME, BALENA_CONFIG_PATH, BALENA_IMAGE_NAME, BALENA_PART_MP, DD_CMD, FUSER_CMD,
    OLD_ROOT_MP, SYSTEM_CONNECTIONS_DIR,
};
use crate::common::stage2_config::{Stage2Config, UmountPart};
use crate::common::{file_name, file_name_exec, path_append, path_append_spec, Error, ErrorKind};
use crate::migrator::common::disk_util::PartInfo;
use crate::text::{decimal, push_chars, push_str, str_chars, string_from_chars, u64_to_decimal};

verus! {

/// Where stage 2 keeps what it copied from the old root.
pub const TRANSFER_DIR: &'static str = "/transfer";
/// Memory that stage 2 keeps free beyond what it copies: 10 MiB.
pub const S2_XTRA_FS_SIZE: u64 = 10485760;
pub const BUSYBOX_CMD: &'static str = "/busybox";
/// Bytes handed to `dd` at a time.
pub const DD_BLOCK_SIZE: usize = 131072;
/// Mismatches after which validation gives up.
pub const VALIDATE_MAX_ERR: usize = 20;
/// Bytes compared at a time.
pub const VALIDATE_BLOCK_SIZE: usize = 65536;

// ---------------------------------------------------------------------------
// What is copied to memory
// ---------------------------------------------------------------------------

/// The sum of the sizes.
pub open spec fn size_sum(s: Seq<u64>) -> nat
    decreases s.len(),
{
    if s.len() == 0 {
        0
    } else {
        size_sum(s.drop_last()) + s.last() as nat
    }
}

/// The memory the copies take: the image, the configuration, the backup where
/// there is one, and each network configuration.
pub open spec fn required_space_spec(
    image: u64,
    config: u64,
    backup: Option<u64>,
    nwmgr: Seq<u64>,
) -> nat {
    image as nat + config as nat + match backup {
        Some(b) => b as nat,
        None => 0nat,
    } + size_sum(nwmgr)
}

proof fn lemma_size_sum_prefix(s: Seq<u64>, i: int)
    requires
        0 <= i <= s.len(),
    ensures
        size_sum(s.take(i)) <= size_sum(s),
    decreases s.len() - i,
{
    if i < s.len() {
        lemma_size_sum_prefix(s, i + 1);
        assert(s.take(i + 1).drop_last() =~= s.take(i));
    } else {
        assert(s.take(i) =~= s);
    }
}

/// The memory that the files stage 2 copies take, from their sizes.
pub fn get_required_space(
    image_size: u64,
    config_size: u64,
    backup_size: Option<u64>,
    nwmgr_sizes: &[u64],
) -> (r: u64)
    requires
        required_space_spec(image_size, config_size, backup_size, nwmgr_sizes@) <= u64::MAX,
    ensures
        r == required_space_spec(image_size, config_size, backup_size, nwmgr_sizes@),
{
    let mut total: u64 = image_size + config_size;
    match backup_size {
        Some(b) => {
            total = total + b;
        },
        None => {},
    }
    let ghost base = total as nat;
    let mut i: usize = 0;
    proof {
        assert(nwmgr_sizes@.take(0) =~= Seq::<u64>::empty());
    }
    while i < nwmgr_sizes.len()
        invariant
            i <= nwmgr_sizes@.len(),
            base + size_sum(nwmgr_sizes@) <= u64::MAX,
            base + size_sum(nwmgr_sizes@) == required_space_spec(
                image_size,
                config_size,
                backup_size,
                nwmgr_sizes@,
            ),
            total == base + size_sum(nwmgr_sizes@.take(i as int)),
        decreases nwmgr_sizes@.len() - i,
    {
        proof {
            lemma_size_sum_prefix(nwmgr_sizes@, i + 1);
            assert(nwmgr_sizes@.take(i + 1).drop_last() =~= nwmgr_sizes@.take(i as int));
        }
        total = total + nwmgr_sizes[i];
        i = i + 1;
    }
    proof {
        assert(nwmgr_sizes@.take(i as int) =~= nwmgr_sizes@);
    }
    total
}

/// Whether the copies fit in memory with the margin to spare; a `Displayed`
/// error where they do not.
pub fn check_ramfs_space(mem_free: u64, req_space: u64) -> (r: Result<(), Error>)
    requires
        req_space + S2_XTRA_FS_SIZE <= u64::MAX,
    ensures
        r is Ok <==> mem_free >= req_space + S2_XTRA_FS_SIZE,
        r matches Err(e) ==> e.kind == ErrorKind::Displayed,
{
    if mem_free < req_space + S2_XTRA_FS_SIZE {
        Err(Error::displayed())
    } else {
        Ok(())
    }
}

/// A file to copy, and where to.
#[derive(Debug)]
pub struct Transfer {
    pub from: String,
    pub to: String,
}

pub open spec fn transfers_view(v: Seq<Transfer>) -> Seq<(Seq<char>, Seq<char>)> {
    v.map_values(|t: Transfer| (t.from@, t.to@))
}

/// The copies to memory: the image, the configuration and the backup where
/// there is one, each from below the old root into the transfer directory.
pub open spec fn transfer_plan_spec(
    image: Seq<char>,
    config: Seq<char>,
    backup: Option<Seq<char>>,
) -> Seq<(Seq<char>, Seq<char>)> {
    let base = seq![
        (path_append_spec(OLD_ROOT_MP@, image), path_append_spec(TRANSFER_DIR@, BALENA_IMAGE_NAME@)),
        (path_append_spec(OLD_ROOT_MP@, config), path_append_spec(TRANSFER_DIR@, BALENA_CONFIG_PATH@)),
    ];
    match backup {
        Some(b) => base.push(
            (path_append_spec(OLD_ROOT_MP@, b), path_append_spec(TRANSFER_DIR@, BACKUP_ARCH_NAME@)),
        ),
        None => base,
    }
}

/// The files stage 2 copies to memory before it gives up the old root.
pub fn transfer_plan(cfg: &Stage2Config) -> (r: Vec<Transfer>)
    ensures
        transfers_view(r@) == transfer_plan_spec(
            cfg.image_path@,
            cfg.config_path@,
            match cfg.backup_path {
                Some(b) => Some(b@),
                None => None,
            },
        ),
{
    let mut r: Vec<Transfer> = Vec::new();
    r.push(
        Transfer {
            from: path_append(OLD_ROOT_MP, cfg.image_path.as_str()),
            to: path_append(TRANSFER_DIR, BALENA_IMAGE_NAME),
        },
    );
    r.push(
        Transfer {
            from: path_append(OLD_ROOT_MP, cfg.config_path.as_str()),
            to: path_append(TRANSFER_DIR, BALENA_CONFIG_PATH),
        },
    );
    match &cfg.backup_path {
        Some(b) => {
            r.push(
                Transfer {
                    from: path_append(OLD_ROOT_MP, b.as_str()),
                    to: path_append(TRANSFER_DIR, BACKUP_ARCH_NAME),
                },
            );
        },
        None => {},
    }
    assert(transfers_view(r@) =~= transfer_plan_spec(
        cfg.image_path@,
        cfg.config_path@,
        match cfg.backup_path {
            Some(b) => Some(b@),
            None => None,
        },
    ));
    r
}

/// The directory of network configurations that stage 1 wrote, seen from
/// stage 2: below the work directory, below the old root.
pub fn nwmgr_source_dir(work_dir: &str) -> (r: String)
    ensures
        r@ == path_append_spec(OLD_ROOT_MP@, path_append_spec(work_dir@, SYSTEM_CONNECTIONS_DIR@)),
{
    let w = path_append(work_dir, SYSTEM_CONNECTIONS_DIR);
    path_append(OLD_ROOT_MP, w.as_str())
}

/// The directory in memory that receives the network configurations.
pub fn nwmgr_transfer_dir() -> (r: String)
    ensures
        r@ == path_append_spec(TRANSFER_DIR@, SYSTEM_CONNECTIONS_DIR@),
{
    path_append(TRANSFER_DIR, SYSTEM_CONNECTIONS_DIR)
}

/// Where an entry of a directory goes in `to_dir`: under its file name, or
/// nowhere where the entry has none.
pub fn entry_target(to_dir: &str, entry: &str) -> (r: Option<String>)
    ensures
        match file_name(entry@) {
            Some(n) => r matches Some(t) && t@ == path_append_spec(to_dir@, n),
            None => r is None,
        },
{
    let e = str_chars(entry);
    match file_name_exec(e.as_slice()) {
        Some(n) => {
            let ns = string_from_chars(n.as_slice());
            Some(path_append(to_dir, ns.as_str()))
        },
        None => None,
    }
}

/// Where a network configuration goes in memory; a `Displayed` error where
/// its path has no file name.
pub fn nwmgr_transfer_target(to_dir: &str, entry: &str) -> (r: Result<String, Error>)
    ensures
        match file_name(entry@) {
            Some(n) => r matches Ok(t) && t@ == path_append_spec(to_dir@, n),
            None => r matches Err(e) && e.kind == ErrorKind::Displayed,
        },
{
    match entry_target(to_dir, entry) {
        Some(t) => Ok(t),
        None => Err(Error::displayed()),
    }
}

// ---------------------------------------------------------------------------
// Giving up the old root
// ---------------------------------------------------------------------------

/// The arguments of busybox that make `fuser` send `signal` to each process
/// that uses the old root.
pub fn fuser_args(signal: &str) -> (r: Vec<String>)
    ensures
        r@.len() == 5,
        r@[0]@ == FUSER_CMD@,
        r@[1]@ == "-k"@,
        r@[2]@ == seq!['-'] + signal@,
        r@[3]@ == "-m"@,
        r@[4]@ == OLD_ROOT_MP@,
{
    let mut sig: Vec<char> = Vec::new();
    sig.push('-');
    push_str(&mut sig, signal);
    let mut r: Vec<String> = Vec::new();
    r.push(FUSER_CMD.to_string());
    r.push("-k".to_string());
    r.push(string_from_chars(sig.as_slice()));
    r.push("-m".to_string());
    r.push(OLD_ROOT_MP.to_string());
    proof {
        assert(sig@ =~= seq!['-'] + signal@);
    }
    r
}

/// What the two rounds of `fuser` (with `TERM`, then `KILL`) come to: as
/// written, a round that succeeded makes the whole a `Displayed` error.
pub fn kill_outcome(term_succeeded: bool, kill_succeeded: bool) -> (r: Result<(), Error>)
    ensures
        r is Ok <==> !term_succeeded && !kill_succeeded,
        r matches Err(e) ==> e.kind == ErrorKind::Displayed,
{
    if term_succeeded || kill_succeeded {
        Err(Error::displayed())
    } else {
        Ok(())
    }
}

/// Where a partition to unmount is mounted once the old root was moved.
pub fn unmount_target(part: &UmountPart) -> (r: String)
    ensures
        r@ == path_append_spec(OLD_ROOT_MP@, part.mountpoint@),
{
    path_append(OLD_ROOT_MP, part.mountpoint.as_str())
}

// ---------------------------------------------------------------------------
// Files for the new system
// ---------------------------------------------------------------------------

/// The configuration, from memory to the root of the new boot partition.
pub fn boot_config_transfer(dev_root: &str) -> (r: Transfer)
    ensures
        r.from@ == path_append_spec(TRANSFER_DIR@, BALENA_CONFIG_PATH@),
        r.to@ == path_append_spec(dev_root@, BALENA_CONFIG_PATH@),
{
    Transfer {
        from: path_append(TRANSFER_DIR, BALENA_CONFIG_PATH),
        to: path_append(dev_root, BALENA_CONFIG_PATH),
    }
}

/// The network configurations' directory in memory, and the one on the new
/// boot partition.
pub fn boot_connections_transfer(dev_root: &str) -> (r: Transfer)
    ensures
        r.from@ == path_append_spec(TRANSFER_DIR@, SYSTEM_CONNECTIONS_DIR@),
        r.to@ == path_append_spec(dev_root@, SYSTEM_CONNECTIONS_DIR@),
{
    Transfer {
        from: path_append(TRANSFER_DIR, SYSTEM_CONNECTIONS_DIR),
        to: path_append(dev_root, SYSTEM_CONNECTIONS_DIR),
    }
}

/// The backup, from memory to the new data partition mounted on the
/// partition mountpoint.
pub fn backup_transfer() -> (r: Transfer)
    ensures
        r.from@ == path_append_spec(TRANSFER_DIR@, BACKUP_ARCH_NAME@),
        r.to@ == path_append_spec(BALENA_PART_MP@, BACKUP_ARCH_NAME@),
{
    Transfer {
        from: path_append(TRANSFER_DIR, BACKUP_ARCH_NAME),
        to: path_append(BALENA_PART_MP, BACKUP_ARCH_NAME),
    }
}

/// The byte offset and size of a partition, for a loop device over the disk.
pub fn loop_window(p: &PartInfo) -> (r: (u64, u64))
    requires
        p.start_lba * 512 <= u64::MAX,
        p.num_sectors * 512 <= u64::MAX,
    ensures
        r.0 == p.start_lba * 512,
        r.1 == p.num_sectors * 512,
{
    (p.start_lba * 512, p.num_sectors * 512)
}

// ---------------------------------------------------------------------------
// Writing the image
// ---------------------------------------------------------------------------

/// The arguments of busybox that start `dd` writing its input to `target`.
pub fn dd_args(target: &str) -> (r: Vec<String>)
    ensures
        r@.len() == 3,
        r@[0]@ == DD_CMD@,
        r@[1]@ == "of="@ + target@,
        r@[2]@ == "bs="@ + decimal(DD_BLOCK_SIZE as nat),
{
    let mut of: Vec<char> = Vec::new();
    push_str(&mut of, "of=");
    push_str(&mut of, target);
    let mut bs: Vec<char> = Vec::new();
    push_str(&mut bs, "bs=");
    let d = u64_to_decimal(DD_BLOCK_SIZE as u64);
    push_chars(&mut bs, d.as_slice());
    let mut r: Vec<String> = Vec::new();
    r.push(DD_CMD.to_string());
    r.push(string_from_chars(of.as_slice()));
    r.push(string_from_chars(bs.as_slice()));
    r
}

/// What to do with a block read from the image, by the bytes it holds.
#[derive(Debug, Clone, Copy, PartialEq, Eq, Structural)]
pub enum BlockAction {
    /// Write it, and read the next one.
    WriteAndContinue,
    /// Write it; the image ends with it.
    WriteAndStop,
    /// The image has ended.
    Stop,
}

/// A full block is written and followed by another; a partial one is written
/// and ends the image; an empty one ends it.
pub fn flash_block_action(fill: usize) -> (r: BlockAction)
    ensures
        fill == 0 ==> r == BlockAction::Stop,
        0 < fill < DD_BLOCK_SIZE ==> r == BlockAction::WriteAndStop,
        fill >= DD_BLOCK_SIZE ==> r == BlockAction::WriteAndContinue,
{
    if fill == 0 {
        BlockAction::Stop
    } else if fill < DD_BLOCK_SIZE {
        BlockAction::WriteAndStop
    } else {
        BlockAction::WriteAndContinue
    }
}

/// The bytes that go to `dd` for a block: the whole block buffer, whose
/// first bytes are those just read and whose rest is what the buffer held
/// from the block before (zeros before the first block). A short last block
/// is thus followed by the tail of the block before it.
pub fn block_to_write(prev: &[u8], read: &[u8]) -> (r: Vec<u8>)
    requires
        read@.len() <= prev@.len(),
    ensures
        r@ == read@ + prev@.skip(read@.len() as int),
{
    let mut r: Vec<u8> = Vec::new();
    let mut i: usize = 0;
    while i < prev.len()
        invariant
            read@.len() <= prev@.len(),
            i <= prev@.len(),
            r@ == (read@ + prev@.skip(read@.len() as int)).take(i as int),
        decreases prev@.len() - i,
    {
        if i < read.len() {
            r.push(read[i]);
        } else {
            r.push(prev[i]);
        }
        proof {
            assert((read@ + prev@.skip(read@.len() as int)).take(i + 1) =~= (read@ + prev@.skip(
                read@.len() as int,
            )).take(i as int).push((read@ + prev@.skip(read@.len() as int))[i as int]));
        }
        i = i + 1;
    }
    proof {
        assert((read@ + prev@.skip(read@.len() as int)).take(prev@.len() as int) =~= read@
            + prev@.skip(read@.len() as int));
    }
    r
}

/// Bytes written per second, for the report.
pub fn flash_rate(tot_bytes: u64, elapsed_secs: u64) -> (r: u64)
    requires
        elapsed_secs > 0,
    ensures
        r == tot_bytes / elapsed_secs,
{
    tot_bytes / elapsed_secs
}

/// How writing the image ended.
#[derive(Debug, Clone, Copy, PartialEq, Eq, Structural)]
pub enum FlashEnd {
    /// The image could not be opened.
    ImageOpenFailed,
    /// `dd` could not be started.
    SpawnFailed,
    /// `dd`'s input was not available.
    NoInput,
    /// Reading the image failed once writing had begun.
    ReadFailed,
    /// Handing a block to `dd` failed.
    WriteFailed,
    /// `dd` ended, successfully or not.
    Exited(bool),
    /// Waiting for `dd` failed.
    WaitFailed,
}

/// Whether anything may have reached the device.
pub open spec fn data_sent(e: FlashEnd) -> bool {
    !(e is ImageOpenFailed || e is SpawnFailed || e is NoInput)
}

/// The result of flashing.
#[derive(Debug, Clone, Copy, PartialEq, Eq, Structural)]
pub enum FlashState {
    Success,
    FailRecoverable,
    FailNonRecoverable,
}

/// Flashing succeeded where `dd` ended successfully; a failure is recoverable
/// exactly where nothing can have reached the device.
pub fn flash_outcome(e: FlashEnd) -> (r: FlashState)
    ensures
        r == FlashState::Success <==> e == FlashEnd::Exited(true),
        r == FlashState::FailRecoverable <==> !data_sent(e),
        r == FlashState::FailNonRecoverable <==> data_sent(e) && e != FlashEnd::Exited(true),
{
    match e {
        FlashEnd::ImageOpenFailed => FlashState::FailRecoverable,
        FlashEnd::SpawnFailed => FlashState::FailRecoverable,
        FlashEnd::NoInput => FlashState::FailRecoverable,
        FlashEnd::ReadFailed => FlashState::FailNonRecoverable,
        FlashEnd::WriteFailed => FlashState::FailNonRecoverable,
        FlashEnd::Exited(ok) => if ok {
            FlashState::Success
        } else {
            FlashState::FailNonRecoverable
        },
        FlashEnd::WaitFailed => FlashState::FailNonRecoverable,
    }
}

// ---------------------------------------------------------------------------
// Checking the written image
// ---------------------------------------------------------------------------

/// The positions below `n` at which the image and the device differ.
pub open spec fn mismatches(gz: Seq<u8>, tgt: Seq<u8>, n: int) -> nat
    decreases n,
{
    if n <= 0 {
        0
    } else {
        mismatches(gz, tgt, n - 1) + (if gz[n - 1] != tgt[n - 1] {
            1nat
        } else {
            0nat
        })
    }
}

proof fn lemma_mismatches_mono(gz: Seq<u8>, tgt: Seq<u8>, i: int, j: int)
    requires
        0 <= i <= j,
    ensures
        mismatches(gz, tgt, i) <= mismatches(gz, tgt, j),
    decreases j - i,
{
    if i < j {
        lemma_mismatches_mono(gz, tgt, i, j - 1);
    }
}

proof fn lemma_mismatches_none(gz: Seq<u8>, tgt: Seq<u8>, n: int)
    requires
        0 <= n <= gz.len(),
        n <= tgt.len(),
        forall|i: int| 0 <= i < n ==> gz[i] == tgt[i],
    ensures
        mismatches(gz, tgt, n) == 0,
    decreases n,
{
    if n > 0 {
        lemma_mismatches_none(gz, tgt, n - 1);
    }
}

/// How far validation got: the bytes compared and the mismatches found.
#[derive(Debug, Clone, Copy, PartialEq, Eq, Structural)]
pub struct ValidateState {
    pub byte_offset: u64,
    pub err_count: usize,
}

/// Go on with the next pair of blocks, or the verdict.
#[derive(Debug, Clone, Copy, PartialEq, Eq, Structural)]
pub enum ValidateStep {
    Continue(ValidateState),
    Done(bool),
}

impl ValidateState {
    pub fn new() -> (r: ValidateState)
        ensures
            r.byte_offset == 0,
            r.err_count == 0,
    {
        ValidateState { byte_offset: 0, err_count: 0 }
    }
}

/// One round of validation over a block `gz` of the decompressed image and
/// the block `tgt` read from the device at the same offset: an empty image
/// block ends it, with success where nothing differed so far; a device block
/// shorter than the image's fails it; reaching the mismatch limit fails it; a
/// block shorter than a full one ends it after it was compared.
pub open spec fn validate_step_spec(st: ValidateState, gz: Seq<u8>, tgt: Seq<u8>) -> ValidateStep {
    let m = mismatches(gz, tgt, gz.len() as int);
    if gz.len() == 0 {
        ValidateStep::Done(st.err_count == 0)
    } else if gz.len() > tgt.len() {
        ValidateStep::Done(false)
    } else if st.err_count + m >= VALIDATE_MAX_ERR {
        ValidateStep::Done(false)
    } else {
        let next = ValidateState {
            byte_offset: (st.byte_offset + gz.len()) as u64,
            err_count: (st.err_count + m) as usize,
        };
        if gz.len() < VALIDATE_BLOCK_SIZE {
            ValidateStep::Done(next.err_count == 0)
        } else {
            ValidateStep::Continue(next)
        }
    }
}

/// Whether a round of validation compares the whole block and moves on.
pub open spec fn validate_advances(st: ValidateState, gz: Seq<u8>, tgt: Seq<u8>) -> bool {
    &&& gz.len() > 0
    &&& gz.len() <= tgt.len()
    &&& st.err_count + mismatches(gz, tgt, gz.len() as int) < VALIDATE_MAX_ERR
}

/// One round of validation (see `validate_step_spec`).
pub fn validate_step(st: ValidateState, gz: &[u8], tgt: &[u8]) -> (r: ValidateStep)
    requires
        st.err_count < VALIDATE_MAX_ERR,
        validate_advances(st, gz@, tgt@) ==> st.byte_offset + gz@.len() <= u64::MAX,
    ensures
        r == validate_step_spec(st, gz@, tgt@),
{
    let n = gz.len();
    if n == 0 {
        return ValidateStep::Done(st.err_count == 0);
    }
    if n > tgt.len() {
        return ValidateStep::Done(false);
    }
    let mut err: usize = st.err_count;
    let mut i: usize = 0;
    while i < n
        invariant
            i <= n,
            n == gz@.len(),
            n <= tgt@.len(),
            err == st.err_count + mismatches(gz@, tgt@, i as int),
            err < VALIDATE_MAX_ERR,
        decreases n - i,
    {
        if gz[i] != tgt[i] {
            err = err + 1;
            if err >= VALIDATE_MAX_ERR {
                proof {
                    lemma_mismatches_mono(gz@, tgt@, i + 1, n as int);
                }
                return ValidateStep::Done(false);
            }
        }
        i = i + 1;
    }
    let next = ValidateState { byte_offset: st.byte_offset + n as u64, err_count: err };
    if n < VALIDATE_BLOCK_SIZE {
        ValidateStep::Done(err == 0)
    } else {
        ValidateStep::Continue(next)
    }
}

/// A device that holds the image byte for byte is never reported as
/// mismatching: from a state without mismatches, a round over equal blocks
/// does not fail, and where it goes on, it still has none.
pub proof fn law_validate_identical(st: ValidateState, gz: Seq<u8>, tgt: Seq<u8>)
    requires
        st.err_count == 0,
        gz.len() <= tgt.len(),
        forall|i: int| 0 <= i < gz.len() ==> gz[i] == tgt[i],
    ensures
        validate_step_spec(st, gz, tgt) != ValidateStep::Done(false),
        validate_step_spec(st, gz, tgt) matches ValidateStep::Continue(n) ==> n.err_count == 0,
{
    lemma_mismatches_none(gz, tgt, gz.len() as int);
}

/// A mismatch is never forgotten: a state that holds one never leads to
/// success, and the count only grows.
pub proof fn law_validate_mismatch_sticks(st: ValidateState, gz: Seq<u8>, tgt: Seq<u8>)
    requires
        st.err_count > 0,
    ensures
        validate_step_spec(st, gz, tgt) != ValidateStep::Done(true),
        validate_step_spec(st, gz, tgt) matches ValidateStep::Continue(n) ==> n.err_count
            >= st.err_count,
{
}

/// A block that differs from the image anywhere makes success impossible.
pub proof fn law_validate_mismatch_fails(st: ValidateState, gz: Seq<u8>, tgt: Seq<u8>, k: int)
    requires
        0 <= k < gz.len(),
        k < tgt.len(),
        gz[k] != tgt[k],
    ensures
        validate_step_spec(st, gz, tgt) != ValidateStep::Done(true),
        validate_step_spec(st, gz, tgt) matches ValidateStep::Continue(n) ==> n.err_count > 0,
{
    lemma_mismatches_mono(gz, tgt, k + 1, gz.len() as int);
}

// ---------------------------------------------------------------------------
// The order of the work
// ---------------------------------------------------------------------------

/// The steps of stage 2.
#[derive(Debug, Clone, Copy, PartialEq, Eq, Structural)]
pub enum Stage2Step {
    ReadConfig,
    KillProcs,
    CopyFiles,
    Unmount,
    Flash,
    Validate,
    TransferFiles,
    Reboot,
}

/// The step after `step`, by whether it succeeded: reading the configuration,
/// copying files, unmounting and flashing must succeed, else the device
/// reboots; in pretend mode it reboots instead of flashing; the other steps go
/// on whatever their result; the last step reboots.
pub open spec fn stage2_next_spec(step: Stage2Step, ok: bool, pretend: bool) -> Stage2Step {
    match step {
        Stage2Step::ReadConfig => if ok {
            Stage2Step::KillProcs
        } else {
            Stage2Step::Reboot
        },
        Stage2Step::KillProcs => Stage2Step::CopyFiles,
        Stage2Step::CopyFiles => if ok {
            Stage2Step::Unmount
        } else {
            Stage2Step::Reboot
        },
        Stage2Step::Unmount => if ok && !pretend {
            Stage2Step::Flash
        } else {
            Stage2Step::Reboot
        },
        Stage2Step::Flash => if ok {
            Stage2Step::Validate
        } else {
            Stage2Step::Reboot
        },
        Stage2Step::Validate => Stage2Step::TransferFiles,
        Stage2Step::TransferFiles => Stage2Step::Reboot,
        Stage2Step::Reboot => Stage2Step::Reboot,
    }
}

/// The step after `step` (see `stage2_next_spec`).
pub fn stage2_next(step: Stage2Step, ok: bool, pretend: bool) -> (r: Stage2Step)
    ensures
        r == stage2_next_spec(step, ok, pretend),
        r == Stage2Step::Flash ==> step == Stage2Step::Unmount && ok && !pretend,
{
    match step {
        Stage2Step::ReadConfig => if ok {
            Stage2Step::KillProcs
        } else {
            Stage2Step::Reboot
        },
        Stage2Step::KillProcs => Stage2Step::CopyFiles,
        Stage2Step::CopyFiles => if ok {
            Stage2Step::Unmount
        } else {
            Stage2Step::Reboot
        },
        Stage2Step::Unmount => if ok && !pretend {
            Stage2Step::Flash
        } else {
            Stage2Step::Reboot
        },
        Stage2Step::Flash => if ok {
            Stage2Step::Validate
        } else {
            Stage2Step::Reboot
        },
        Stage2Step::Validate => Stage2Step::TransferFiles,
        Stage2Step::TransferFiles => Stage2Step::Reboot,
        Stage2Step::Reboot => Stage2Step::Reboot,
    }
}

/// Where stage 2 stands after the steps from `step` with the results `oks`.
pub open spec fn stage2_run(step: Stage2Step, oks: Seq<bool>, pretend: bool) -> Stage2Step
    decreases oks.len(),
{
    if oks.len() == 0 {
        step
    } else {
        stage2_run(stage2_next_spec(step, oks[0], pretend), oks.drop_first(), pretend)
    }
}

/// Steps left before the reboot, at most.
pub open spec fn stage2_rank(step: Stage2Step) -> nat {
    match step {
        Stage2Step::ReadConfig => 7,
        Stage2Step::KillProcs => 6,
        Stage2Step::CopyFiles => 5,
        Stage2Step::Unmount => 4,
        Stage2Step::Flash => 3,
        Stage2Step::Validate => 2,
        Stage2Step::TransferFiles => 1,
        Stage2Step::Reboot => 0,
    }
}

/// Stage 2 always ends in a reboot: whatever the steps' results, seven steps
/// from the start (fewer from later on) reach it, and it is never left.
pub proof fn law_stage2_reboots(step: Stage2Step, oks: Seq<bool>, pretend: bool)
    requires
        oks.len() >= stage2_rank(step),
    ensures
        stage2_run(step, oks, pretend) == Stage2Step::Reboot,
    decreases oks.len(),
{
    if oks.len() > 0 {
        law_stage2_reboots(stage2_next_spec(step, oks[0], pretend), oks.drop_first(), pretend);
    }
}

/// The device is flashed only after the files were copied to memory and the
/// partitions given up, and never in pretend mode: a run that reaches the
/// flash step passed a successful copy and a successful unmount.
pub proof fn law_flash_guarded(oks: Seq<bool>, pretend: bool)
    requires
        oks.len() >= 4,
        stage2_run(Stage2Step::ReadConfig, oks.take(4), pretend) == Stage2Step::Flash,
    ensures
        oks[0],
        oks[2],
        oks[3],
        !pretend,
{
    let t = oks.take(4);
    assert(t.drop_first() =~= oks.subrange(1, 4));
    assert(oks.subrange(1, 4).drop_first() =~= oks.subrange(2, 4));
    assert(oks.subrange(2, 4).drop_first() =~= oks.subrange(3, 4));
    assert(oks.subrange(3, 4).drop_first() =~= Seq::<bool>::empty());
    reveal_with_fuel(stage2_run, 5);
    let s1 = stage2_next_spec(Stage2Step::ReadConfig, oks[0], pretend);
    let s2 = stage2_next_spec(s1, oks[1], pretend);
    let s3 = stage2_next_spec(s2, oks[2], pretend);
    let s4 = stage2_next_spec(s3, oks[3], pretend);
    assert(stage2_run(Stage2Step::ReadConfig, t, pretend) == s4);
}

} // verus!
