//! Stage 1 of the takeover program: the decisions it takes while it prepares
//! the running system for the switch to the new init.
use vstd::prelude::*;

use crate::common::defs::{
    BALENA_DATA_MP, BALENA_OS_NAME, DD_CMD, EFIBOOTMGR_CMD, MTD_DEBUG_CMD, SYS_EFIVARS_DIR, SYSTEM_CONNECTIONS_DIR,
    SYSTEM_PROXY_DIR, TAKEOVER_DIR, TELINIT_CMD,
};
use crate::common::options::{level_name, LogLevel, Options};
use crate::common::stage2_config::{LogDevice, Stage2Config, UmountPart};
use crate::common::{
    file_name, file_name_exec, path_append, path_append_spec, path_comps, path_eq, Error,
    ErrorKind,
};
use crate::migrator::stage1::block_device_info::block_device::{BlockDevModel, BlockDevice};
use crate::migrator::stage1::block_device_info::{find_path, BlockDeviceInfo};
use crate::migrator::stage1::device_impl::{device_type_of, slugs};
use crate::migrator::stage1::migrate_info::MigrateInfo;
use crate::migrator::stage1::{pad2, pad2_exec, Confirmation, S1_XTRA_FS_SIZE};
use crate::text::{
    chars_eq, is_prefix, push_chars, push_str, starts_with, str_chars, string_from_chars, trim,
    trim_chars,
};

verus! {

// ---------------------------------------------------------------------------
// Commands copied to the takeover directory
// ---------------------------------------------------------------------------

/// Whether `efibootmgr` may be needed, so that the EFI directory is worth a
/// look: on x86, unless EFI setup was switched off, and not on a Jetson Xavier,
/// whose boot loader does not use EFI.
pub fn needs_efi_check(is_x86: bool, no_efi_setup: bool, is_jetson_xavier: bool) -> (r: bool)
    ensures
        r == (is_x86 && !no_efi_setup && !is_jetson_xavier),
{
    is_x86 && !no_efi_setup && !is_jetson_xavier
}

/// The commands stage 2 needs: `dd`, then `efibootmgr` where EFI is set up,
/// then `mtd_debug` on a Jetson Xavier NX.
pub open spec fn copy_commands_spec(with_efibootmgr: bool, is_jetson_xavier_nx: bool) -> Seq<
    &'static str,
> {
    let s = seq![DD_CMD];
    let s = if with_efibootmgr {
        s.push(EFIBOOTMGR_CMD)
    } else {
        s
    };
    if is_jetson_xavier_nx {
        s.push(MTD_DEBUG_CMD)
    } else {
        s
    }
}

/// The commands copied to the takeover directory (see `copy_commands_spec`).
pub fn copy_commands(with_efibootmgr: bool, is_jetson_xavier_nx: bool) -> (r: Vec<&'static str>)
    ensures
        r@ == copy_commands_spec(with_efibootmgr, is_jetson_xavier_nx),
{
    let mut r: Vec<&'static str> = Vec::new();
    r.push(DD_CMD);
    if with_efibootmgr {
        r.push(EFIBOOTMGR_CMD);
    }
    if is_jetson_xavier_nx {
        r.push(MTD_DEBUG_CMD);
    }
    r
}

/// Whether the copies fit in memory with the margin to spare; an `InvState`
/// error where they do not.
pub fn check_free_memory(mem_free: u64, req_space: u64) -> (r: Result<(), Error>)
    requires
        req_space + S1_XTRA_FS_SIZE <= u64::MAX,
    ensures
        r is Ok <==> mem_free >= req_space + S1_XTRA_FS_SIZE,
        r matches Err(e) ==> e.kind == ErrorKind::InvState,
{
    if mem_free < req_space + S1_XTRA_FS_SIZE {
        Err(
            Error::with_context(
                ErrorKind::InvState,
                "Not enough memory space found to copy files to RAMFS",
            ),
        )
    } else {
        Ok(())
    }
}

// ---------------------------------------------------------------------------
// The takeover directory
// ---------------------------------------------------------------------------

/// What is found at the takeover directory's path.
#[derive(Debug, Clone, Copy, PartialEq, Eq, Structural)]
pub enum TakeoverDirStat {
    EmptyDir,
    NonEmptyDir,
    NotADir,
    NotFound,
    /// `stat` failed for another reason than a missing file.
    StatFailed,
    /// The directory could not be read.
    ReadFailed,
}

/// What to do with the takeover directory.
#[derive(Debug, Clone, Copy, PartialEq, Eq, Structural)]
pub enum TakeoverDirAction {
    Reuse,
    Create,
}

/// An empty directory is reused, a missing one created; a non-empty
/// directory or a file there is a `Displayed` error (the user is told to move
/// it), and a failure to look is an `Upstream` error.
pub fn takeover_dir_action(stat: TakeoverDirStat) -> (r: Result<TakeoverDirAction, Error>)
    ensures
        stat == TakeoverDirStat::EmptyDir ==> r == Ok::<TakeoverDirAction, Error>(
            TakeoverDirAction::Reuse,
        ),
        stat == TakeoverDirStat::NotFound ==> r == Ok::<TakeoverDirAction, Error>(
            TakeoverDirAction::Create,
        ),
        (stat == TakeoverDirStat::NonEmptyDir || stat == TakeoverDirStat::NotADir) ==> (r matches Err(
            e,
        ) && e.kind == ErrorKind::Displayed),
        (stat == TakeoverDirStat::StatFailed || stat == TakeoverDirStat::ReadFailed) ==> (r matches Err(
            e,
        ) && e.kind == ErrorKind::Upstream),
{
    match stat {
        TakeoverDirStat::EmptyDir => Ok(TakeoverDirAction::Reuse),
        TakeoverDirStat::NotFound => Ok(TakeoverDirAction::Create),
        TakeoverDirStat::NonEmptyDir => Err(Error::displayed()),
        TakeoverDirStat::NotADir => Err(Error::displayed()),
        TakeoverDirStat::StatFailed => Err(
            Error::with_context(ErrorKind::Upstream, "Failed to stat the takeover directory"),
        ),
        TakeoverDirStat::ReadFailed => Err(
            Error::with_context(ErrorKind::Upstream, "Failed to read the takeover directory"),
        ),
    }
}

/// A file system to mount below the takeover directory.
#[derive(Debug)]
pub struct FsMount {
    pub target: String,
    pub device: &'static str,
    pub fs_type: &'static str,
    /// Where mounting fails, mount a `tmpfs` there and copy the host's nodes.
    pub fallback_tmpfs: bool,
}

pub open spec fn fs_mount_view(v: Seq<FsMount>) -> Seq<(Seq<char>, &'static str, &'static str, bool)> {
    v.map_values(|m: FsMount| (m.target@, m.device, m.fs_type, m.fallback_tmpfs))
}

/// The file systems the new root needs, in order: `proc`, `tmp`, `sys`, the
/// EFI variables where the host has them, `dev` (falling back to a `tmpfs`
/// with the host's nodes), and `dev/pts`.
pub open spec fn sys_mounts_spec(takeover_dir: Seq<char>, with_efivars: bool) -> Seq<
    (Seq<char>, &'static str, &'static str, bool),
> {
    let head = seq![
        (path_append_spec(takeover_dir, "proc"@), "proc", "proc", false),
        (path_append_spec(takeover_dir, "tmp"@), "tmpfs", "tmpfs", false),
        (path_append_spec(takeover_dir, "sys"@), "sys", "sysfs", false),
    ];
    let head = if with_efivars {
        head.push((path_append_spec(takeover_dir, SYS_EFIVARS_DIR@), "efivarfs", "efivarfs", false))
    } else {
        head
    };
    head + seq![
        (path_append_spec(takeover_dir, "dev"@), "dev", "devtmpfs", true),
        (path_append_spec(takeover_dir, "dev/pts"@), "devpts", "devpts", false),
    ]
}

/// The file systems to mount below the takeover directory (see
/// `sys_mounts_spec`).
pub fn sys_mounts(takeover_dir: &str, with_efivars: bool) -> (r: Vec<FsMount>)
    ensures
        fs_mount_view(r@) == sys_mounts_spec(takeover_dir@, with_efivars),
{
    let mut r: Vec<FsMount> = Vec::new();
    r.push(
        FsMount {
            target: path_append(takeover_dir, "proc"),
            device: "proc",
            fs_type: "proc",
            fallback_tmpfs: false,
        },
    );
    r.push(
        FsMount {
            target: path_append(takeover_dir, "tmp"),
            device: "tmpfs",
            fs_type: "tmpfs",
            fallback_tmpfs: false,
        },
    );
    r.push(
        FsMount {
            target: path_append(takeover_dir, "sys"),
            device: "sys",
            fs_type: "sysfs",
            fallback_tmpfs: false,
        },
    );
    if with_efivars {
        r.push(
            FsMount {
                target: path_append(takeover_dir, SYS_EFIVARS_DIR),
                device: "efivarfs",
                fs_type: "efivarfs",
                fallback_tmpfs: false,
            },
        );
    }
    r.push(
        FsMount {
            target: path_append(takeover_dir, "dev"),
            device: "dev",
            fs_type: "devtmpfs",
            fallback_tmpfs: true,
        },
    );
    r.push(
        FsMount {
            target: path_append(takeover_dir, "dev/pts"),
            device: "devpts",
            fs_type: "devpts",
            fallback_tmpfs: false,
        },
    );
    assert(fs_mount_view(r@) =~= sys_mounts_spec(takeover_dir@, with_efivars));
    r
}

// ---------------------------------------------------------------------------
// Network configuration
// ---------------------------------------------------------------------------

/// Below the work directory: where the network configurations and the proxy
/// configurations are gathered.
pub fn config_dirs(work_dir: &str) -> (r: (String, String))
    ensures
        r.0@ == path_append_spec(work_dir@, SYSTEM_CONNECTIONS_DIR@),
        r.1@ == path_append_spec(work_dir@, SYSTEM_PROXY_DIR@),
{
    (path_append(work_dir, SYSTEM_CONNECTIONS_DIR), path_append(work_dir, SYSTEM_PROXY_DIR))
}

/// Where the `index`-th network configuration goes: a system migrated from
/// balenaOS keeps the file's name, any other gets `balena-` and the index with
/// at least two digits.
pub open spec fn nwmgr_target_spec(nwmgr_dir: Seq<char>, os_name: Seq<char>, index: nat, source: Seq<char>) -> Seq<
    char,
> {
    if is_prefix(BALENA_OS_NAME@, os_name) {
        path_append_spec(nwmgr_dir, file_name(source)->0)
    } else {
        path_append_spec(nwmgr_dir, "balena-"@ + pad2(index))
    }
}

/// Where a network configuration is copied to (see `nwmgr_target_spec`).
pub fn nwmgr_config_target(nwmgr_dir: &str, os_name: &str, index: u64, source: &str) -> (r: String)
    requires
        is_prefix(BALENA_OS_NAME@, os_name@) ==> file_name(source@) is Some,
    ensures
        r@ == nwmgr_target_spec(nwmgr_dir@, os_name@, index as nat, source@),
{
    let os = str_chars(os_name);
    let prefix = str_chars(BALENA_OS_NAME);
    if starts_with(os.as_slice(), prefix.as_slice()) {
        let s = str_chars(source);
        match file_name_exec(s.as_slice()) {
            Some(n) => {
                let ns = string_from_chars(n.as_slice());
                path_append(nwmgr_dir, ns.as_str())
            },
            None => {
                proof {
                    assert(false);
                }
                String::new()
            },
        }
    } else {
        let mut v: Vec<char> = Vec::new();
        push_str(&mut v, "balena-");
        let p = pad2_exec(index);
        push_chars(&mut v, p.as_slice());
        let name = string_from_chars(v.as_slice());
        path_append(nwmgr_dir, name.as_str())
    }
}

/// Where a proxy configuration is copied to: under its own name.
pub fn proxy_config_target(proxy_dir: &str, source: &str) -> (r: String)
    requires
        file_name(source@) is Some,
    ensures
        r@ == path_append_spec(proxy_dir@, file_name(source@)->0),
{
    let s = str_chars(source);
    match file_name_exec(s.as_slice()) {
        Some(n) => {
            let ns = string_from_chars(n.as_slice());
            path_append(proxy_dir, ns.as_str())
        },
        None => String::new(),
    }
}

// ---------------------------------------------------------------------------
// Devices
// ---------------------------------------------------------------------------

/// File systems that stage 2 can write its log to.
pub open spec fn supported_log_fs(fs: Seq<char>) -> bool {
    fs == "vfat"@ || fs == "ext3"@ || fs == "ext4"@
}

pub fn is_supported_log_fs(fs: &str) -> (r: bool)
    ensures
        r == supported_log_fs(fs@),
{
    let f = str_chars(fs);
    chars_eq(f.as_slice(), str_chars("vfat").as_slice()) || chars_eq(
        f.as_slice(),
        str_chars("ext3").as_slice(),
    ) || chars_eq(f.as_slice(), str_chars("ext4").as_slice())
}

/// The device stage 2 logs to: the configured one, where it is a known
/// partition whose file system `blkid` named and stage 2 can write; else none.
pub open spec fn log_device_spec(
    log_to: Option<Seq<char>>,
    devs: Seq<(Seq<char>, BlockDevModel)>,
) -> Option<(Seq<char>, Seq<char>)> {
    match log_to {
        None => None,
        Some(p) => match find_path(devs, p, 0) {
            None => None,
            Some(i) => match devs[i].1 {
                BlockDevModel::Device(_) => None,
                BlockDevModel::Partition(pm) => match pm.partition_info {
                    None => None,
                    Some(info) => match info.fs_type {
                        None => None,
                        Some(fs) => if supported_log_fs(fs) {
                            Some((p, fs))
                        } else {
                            None
                        },
                    },
                },
            },
        },
    }
}

/// The log device for stage 2 (see `log_device_spec`).
pub fn select_log_device(log_to: Option<&str>, info: &BlockDeviceInfo) -> (r: Option<LogDevice>)
    ensures
        match log_device_spec(
            match log_to {
                Some(p) => Some(p@),
                None => None,
            },
            info.devices@,
        ) {
            Some((d, f)) => r matches Some(l) && l.dev_name@ == d && l.fs_type@ == f,
            None => r is None,
        },
{
    match log_to {
        None => None,
        Some(p) => match info.devices.get(p) {
            None => None,
            Some(dev) => match dev.get_partition_info() {
                None => None,
                Some(pi) => match pi.fs_type() {
                    None => None,
                    Some(fs) => if is_supported_log_fs(fs) {
                        Some(LogDevice { dev_name: p.to_string(), fs_type: fs.to_string() })
                    } else {
                        None
                    },
                },
            },
        },
    }
}

/// The device to flash: the configured one, looked up in the device map (an
/// `InvState` error where it is not there), else the root device.
pub fn select_flash_device<'a>(flash_to: Option<&str>, info: &'a BlockDeviceInfo) -> (r: Result<
    &'a BlockDevice,
    Error,
>)
    ensures
        match flash_to {
            Some(p) => match find_path(info.devices@, p@, 0) {
                Some(i) => r matches Ok(d) && d@ == info.devices@[i].1,
                None => r matches Err(e) && e.kind == ErrorKind::InvState,
            },
            None => r matches Ok(d) && *d == info.root_device,
        },
{
    match flash_to {
        Some(p) => match info.devices.get(p) {
            Some(d) => Ok(d),
            None => Err(
                Error::with_context(ErrorKind::InvState, "Could not find configured flash device"),
            ),
        },
        None => Ok(&info.root_device),
    }
}

// ---------------------------------------------------------------------------
// Asking, and handing over to the new init
// ---------------------------------------------------------------------------

/// An answer line, trimmed: `Y` or `y` is yes, `n` is no, anything else asks
/// again.
pub fn confirm_takeover(line: &str) -> (r: Confirmation)
    ensures
        r == (if trim(line@) == "Y"@ || trim(line@) == "y"@ {
            Confirmation::Yes
        } else if trim(line@) == "n"@ {
            Confirmation::No
        } else {
            Confirmation::AskAgain
        }),
{
    let t = trim_chars(str_chars(line).as_slice());
    if chars_eq(t.as_slice(), str_chars("Y").as_slice()) || chars_eq(
        t.as_slice(),
        str_chars("y").as_slice(),
    ) {
        Confirmation::Yes
    } else if chars_eq(t.as_slice(), str_chars("n").as_slice()) {
        Confirmation::No
    } else {
        Confirmation::AskAgain
    }
}

/// What a failure to gather the migration information comes to: the image was
/// only downloaded, which ends stage 1 without error, or an `Upstream` error.
pub fn migrate_info_failure(kind: ErrorKind) -> (r: Result<(), Error>)
    ensures
        r is Ok <==> kind == ErrorKind::ImageDownloaded,
        r matches Err(e) ==> e.kind == ErrorKind::Upstream,
{
    if kind == ErrorKind::ImageDownloaded {
        Ok(())
    } else {
        Err(Error::with_context(ErrorKind::Upstream, "Failed to create migrate info"))
    }
}

/// The new init, in the takeover directory.
pub fn new_init_path(takeover_dir: &str) -> (r: String)
    ensures
        r@ == path_append_spec(takeover_dir@, "/bin/takeover"@),
{
    path_append(takeover_dir, "/bin/takeover")
}

/// Whether `telinit`, a symbolic link that resolves to `canonical`, must be
/// copied before the new init is bind-mounted over the old one: where it
/// resolves to init itself, which the mount hides.
pub fn telinit_needs_copy(canonical: &str, init_path: &str) -> (r: bool)
    ensures
        r == (path_comps(canonical@) == path_comps(init_path@)),
{
    let c = str_chars(canonical);
    let i = str_chars(init_path);
    path_eq(c.as_slice(), i.as_slice())
}

/// Where the copy of `telinit` goes.
pub fn telinit_copy_path() -> (r: String)
    ensures
        r@ == path_append_spec(TAKEOVER_DIR@, "/bin/"@ + TELINIT_CMD@),
{
    let mut v: Vec<char> = Vec::new();
    push_str(&mut v, "/bin/");
    push_str(&mut v, TELINIT_CMD);
    let s = string_from_chars(v.as_slice());
    path_append(TAKEOVER_DIR, s.as_str())
}

// ---------------------------------------------------------------------------
// The order of the preparation
// ---------------------------------------------------------------------------

/// The steps that prepare the takeover, in the order they are taken.
#[derive(Debug, Clone, Copy, PartialEq, Eq, Structural)]
pub enum PrepareStep {
    SwapOff,
    GatherCommands,
    CheckMemory,
    TakeoverDir,
    MountSystem,
    OldRootDir,
    CopyCommands,
    PrepareConfigs,
    NewInit,
    FindDevices,
    WriteConfig,
    ChangeDir,
    FindTelinit,
    BindInit,
    RestartInit,
    Done,
    Failed,
}

/// The position of a step in the preparation.
pub open spec fn prepare_index(step: PrepareStep) -> nat {
    match step {
        PrepareStep::SwapOff => 0,
        PrepareStep::GatherCommands => 1,
        PrepareStep::CheckMemory => 2,
        PrepareStep::TakeoverDir => 3,
        PrepareStep::MountSystem => 4,
        PrepareStep::OldRootDir => 5,
        PrepareStep::CopyCommands => 6,
        PrepareStep::PrepareConfigs => 7,
        PrepareStep::NewInit => 8,
        PrepareStep::FindDevices => 9,
        PrepareStep::WriteConfig => 10,
        PrepareStep::ChangeDir => 11,
        PrepareStep::FindTelinit => 12,
        PrepareStep::BindInit => 13,
        PrepareStep::RestartInit => 14,
        PrepareStep::Done => 15,
        PrepareStep::Failed => 16,
    }
}

/// Every step must succeed: a failed step ends the preparation as failed,
/// a successful one leads to the next; the ends are kept.
pub open spec fn prepare_next_spec(step: PrepareStep, ok: bool) -> PrepareStep {
    if step == PrepareStep::Done || step == PrepareStep::Failed {
        step
    } else if !ok {
        PrepareStep::Failed
    } else {
        match step {
            PrepareStep::SwapOff => PrepareStep::GatherCommands,
            PrepareStep::GatherCommands => PrepareStep::CheckMemory,
            PrepareStep::CheckMemory => PrepareStep::TakeoverDir,
            PrepareStep::TakeoverDir => PrepareStep::MountSystem,
            PrepareStep::MountSystem => PrepareStep::OldRootDir,
            PrepareStep::OldRootDir => PrepareStep::CopyCommands,
            PrepareStep::CopyCommands => PrepareStep::PrepareConfigs,
            PrepareStep::PrepareConfigs => PrepareStep::NewInit,
            PrepareStep::NewInit => PrepareStep::FindDevices,
            PrepareStep::FindDevices => PrepareStep::WriteConfig,
            PrepareStep::WriteConfig => PrepareStep::ChangeDir,
            PrepareStep::ChangeDir => PrepareStep::FindTelinit,
            PrepareStep::FindTelinit => PrepareStep::BindInit,
            PrepareStep::BindInit => PrepareStep::RestartInit,
            _ => PrepareStep::Done,
        }
    }
}

/// The step after `step` (see `prepare_next_spec`).
pub fn prepare_next(step: PrepareStep, ok: bool) -> (r: PrepareStep)
    ensures
        r == prepare_next_spec(step, ok),
{
    if step == PrepareStep::Done || step == PrepareStep::Failed {
        step
    } else if !ok {
        PrepareStep::Failed
    } else {
        match step {
            PrepareStep::SwapOff => PrepareStep::GatherCommands,
            PrepareStep::GatherCommands => PrepareStep::CheckMemory,
            PrepareStep::CheckMemory => PrepareStep::TakeoverDir,
            PrepareStep::TakeoverDir => PrepareStep::MountSystem,
            PrepareStep::MountSystem => PrepareStep::OldRootDir,
            PrepareStep::OldRootDir => PrepareStep::CopyCommands,
            PrepareStep::CopyCommands => PrepareStep::PrepareConfigs,
            PrepareStep::PrepareConfigs => PrepareStep::NewInit,
            PrepareStep::NewInit => PrepareStep::FindDevices,
            PrepareStep::FindDevices => PrepareStep::WriteConfig,
            PrepareStep::WriteConfig => PrepareStep::ChangeDir,
            PrepareStep::ChangeDir => PrepareStep::FindTelinit,
            PrepareStep::FindTelinit => PrepareStep::BindInit,
            PrepareStep::BindInit => PrepareStep::RestartInit,
            _ => PrepareStep::Done,
        }
    }
}

/// Where the preparation stands after the steps from `step` with the results
/// `oks`.
pub open spec fn prepare_run(step: PrepareStep, oks: Seq<bool>) -> PrepareStep
    decreases oks.len(),
{
    if oks.len() == 0 {
        step
    } else {
        prepare_run(prepare_next_spec(step, oks[0]), oks.drop_first())
    }
}

proof fn lemma_prepare_run_failed(oks: Seq<bool>)
    ensures
        prepare_run(PrepareStep::Failed, oks) == PrepareStep::Failed,
    decreases oks.len(),
{
    if oks.len() > 0 {
        lemma_prepare_run_failed(oks.drop_first());
    }
}

/// The preparation advances one step per success and fails for good at the
/// first failure: whatever lies past a failure, a run that has not failed
/// has had only successes, and they brought it exactly as many steps on.
pub proof fn law_prepare_only_after_successes(step: PrepareStep, oks: Seq<bool>)
    requires
        prepare_index(step) <= 15,
        prepare_run(step, oks) != PrepareStep::Failed,
        prepare_index(step) + oks.len() <= 15,
    ensures
        forall|i: int| 0 <= i < oks.len() ==> oks[i],
        prepare_index(prepare_run(step, oks)) == prepare_index(step) + oks.len(),
    decreases oks.len(),
{
    if oks.len() > 0 {
        if !oks[0] {
            lemma_prepare_run_failed(oks.drop_first());
        } else {
            let next = prepare_next_spec(step, oks[0]);
            law_prepare_only_after_successes(next, oks.drop_first());
            assert forall|i: int| 0 <= i < oks.len() implies oks[i] by {
                if i > 0 {
                    assert(oks[i] == oks.drop_first()[i - 1]);
                }
            }
        }
    }
}

/// The new init is bind-mounted over the old one only once everything before
/// it succeeded: the memory check, the takeover directory, the copies, the
/// devices and the stage 2 configuration.
pub proof fn law_bind_init_last(oks: Seq<bool>)
    requires
        prepare_run(PrepareStep::SwapOff, oks) == PrepareStep::BindInit,
    ensures
        oks.len() == 13,
        forall|i: int| 0 <= i < oks.len() ==> oks[i],
{
    if prepare_index(PrepareStep::SwapOff) + oks.len() <= 15 {
        law_prepare_only_after_successes(PrepareStep::SwapOff, oks);
    } else {
        lemma_prepare_bound(PrepareStep::SwapOff, oks);
    }
}

proof fn lemma_prepare_bound(step: PrepareStep, oks: Seq<bool>)
    requires
        prepare_index(step) + oks.len() > 15,
    ensures
        prepare_run(step, oks) == PrepareStep::Done || prepare_run(step, oks) == PrepareStep::Failed,
    decreases oks.len(),
{
    if oks.len() > 0 {
        let next = prepare_next_spec(step, oks[0]);
        if next == PrepareStep::Failed {
            lemma_prepare_run_failed(oks.drop_first());
        } else if next == PrepareStep::Done {
            lemma_prepare_run_done(oks.drop_first());
        } else {
            lemma_prepare_bound(next, oks.drop_first());
        }
    }
}

proof fn lemma_prepare_run_done(oks: Seq<bool>)
    ensures
        prepare_run(PrepareStep::Done, oks) == PrepareStep::Done,
    decreases oks.len(),
{
    if oks.len() > 0 {
        lemma_prepare_run_done(oks.drop_first());
    }
}

/// What ends stage 1 after the preparation: success, or its error, with the
/// mounts undone first where cleaning up was not switched off.
#[derive(Debug, Clone, Copy, PartialEq, Eq, Structural)]
pub enum PrepareEnd {
    Success,
    CleanUpAndFail,
    Fail,
}

pub fn prepare_end(ok: bool, cleanup: bool) -> (r: PrepareEnd)
    ensures
        ok ==> r == PrepareEnd::Success,
        !ok && cleanup ==> r == PrepareEnd::CleanUpAndFail,
        !ok && !cleanup ==> r == PrepareEnd::Fail,
{
    if ok {
        PrepareEnd::Success
    } else if cleanup {
        PrepareEnd::CleanUpAndFail
    } else {
        PrepareEnd::Fail
    }
}

// ---------------------------------------------------------------------------
// The stage 2 configuration
// ---------------------------------------------------------------------------

/// The directory whose device stands for the root device when the block
/// devices are gathered: on balenaOS, whose root is an overlay, the data
/// partition's mountpoint; elsewhere `/`.
pub fn block_info_dir(os_name: &str) -> (r: &'static str)
    ensures
        r@ == (if is_prefix(BALENA_OS_NAME@, os_name@) {
            BALENA_DATA_MP@
        } else {
            "/"@
        }),
{
    let os = str_chars(os_name);
    let prefix = str_chars(BALENA_OS_NAME);
    if starts_with(os.as_slice(), prefix.as_slice()) {
        BALENA_DATA_MP
    } else {
        "/"
    }
}

/// The log level that stage 2 runs at: the one given for it, else the
/// general one.
pub open spec fn s2_level(opts: Options) -> LogLevel {
    match opts.s2_log_level {
        Some(l) => l,
        None => opts.log_level,
    }
}

/// The configuration that stage 1 writes for stage 2: the devices found, the
/// canonical work directory and the terminal as given, the rest from the
/// options and the migration information; no fallback log, backup or API
/// data yet.
pub fn stage2_config(
    opts: &Options,
    mig_info: &MigrateInfo,
    flash_dev: String,
    log_dev: Option<LogDevice>,
    umount_parts: Vec<UmountPart>,
    work_dir: String,
    tty: String,
) -> (r: Stage2Config)
    ensures
        r.log_dev == log_dev,
        r.log_level@ == level_name(s2_level(*opts)),
        !r.fallback_log,
        r.fallback_log_filename@ == Seq::<char>::empty(),
        r.fallback_log_dirname@ == Seq::<char>::empty(),
        r.flash_dev == flash_dev,
        r.pretend == opts.pretend,
        r.umount_parts == umount_parts,
        r.work_dir == work_dir,
        r.image_path@ == mig_info.image_path@,
        r.config_path@ == mig_info.config.path@,
        r.backup_path is None,
        r.device_type@ == slugs(device_type_of(mig_info.device))[0],
        r.tty == tty,
        r.api_endpoint@ == Seq::<char>::empty(),
        r.api_key@ == Seq::<char>::empty(),
        r.uuid@ == Seq::<char>::empty(),
        !r.report_hup_progress,
        match opts.change_dt_to {
            Some(d) => r.change_dt_to matches Some(c) && c@ == d@,
            None => r.change_dt_to is None,
        },
{
    let change_dt_to = match opts.change_dt_to() {
        Some(d) => Some(d.clone()),
        None => None,
    };
    Stage2Config {
        log_dev,
        log_level: String::from_str(opts.s2_log_level().as_str()),
        fallback_log: false,
        fallback_log_filename: String::new(),
        fallback_log_dirname: String::new(),
        flash_dev,
        pretend: opts.pretend(),
        umount_parts,
        work_dir,
        image_path: String::from_str(mig_info.get_image_path()),
        config_path: String::from_str(mig_info.get_balena_cfg().get_path()),
        backup_path: None,
        device_type: String::from_str(mig_info.device.get_device_type().slug()),
        tty,
        api_endpoint: String::new(),
        api_key: String::new(),
        uuid: String::new(),
        report_hup_progress: false,
        change_dt_to,
    }
}

} // verus!
