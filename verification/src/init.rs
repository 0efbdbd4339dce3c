//! The init that stage 1 mounts over the old one: the order of its work, the
//! files it uses, and what it does where a step fails.
use vstd::prelude::*;

use crate::common::defs::OLD_ROOT_MP;
use crate::common::stage2_config::Stage2Config;
use crate::common::{path_append, path_append_spec};
use crate::migrator::stage2::Transfer;
use crate::text::{push_str, string_from_chars};

verus! {

/// Where the certificates the new root needs are kept.
pub const CERTS_DIR: &'static str = "/etc/ssl/certs";

/// The steps of the init.
#[derive(Debug, Clone, Copy, PartialEq, Eq, Structural)]
pub enum InitStep {
    ReadConfig,
    CheckPid,
    ChangeDir,
    CloseFds,
    SetupLog,
    MakeRootPrivate,
    PivotRoot,
    CopyFallbackLog,
    SetupNetworking,
    SpawnWorker,
    WaitForChildren,
    /// Report the failure and reboot; `pre_pivot_root` tells whether the root
    /// was not moved yet.
    HandleError { pre_pivot_root: bool },
    Reboot,
}

/// The step after `step`, by whether it succeeded. Until the root was moved,
/// a failure is handled as one before the pivot; a failure to start the worker
/// after it; the log is set up (the log device where one is configured, and
/// the buffered log flushed) only where no fallback log was asked for; the
/// fallback log is copied only where it was asked for; failures of the log
/// setup and of networking do not stop the init; reading the configuration must succeed, else the device reboots.
pub open spec fn init_next_spec(step: InitStep, ok: bool, fallback_log: bool) -> InitStep {
    match step {
        InitStep::ReadConfig => if ok {
            InitStep::CheckPid
        } else {
            InitStep::Reboot
        },
        InitStep::CheckPid => if ok {
            InitStep::ChangeDir
        } else {
            InitStep::HandleError { pre_pivot_root: true }
        },
        InitStep::ChangeDir => if ok {
            InitStep::CloseFds
        } else {
            InitStep::HandleError { pre_pivot_root: true }
        },
        InitStep::CloseFds => if !ok {
            InitStep::HandleError { pre_pivot_root: true }
        } else if !fallback_log {
            InitStep::SetupLog
        } else {
            InitStep::MakeRootPrivate
        },
        InitStep::SetupLog => InitStep::MakeRootPrivate,
        InitStep::MakeRootPrivate => if ok {
            InitStep::PivotRoot
        } else {
            InitStep::HandleError { pre_pivot_root: true }
        },
        InitStep::PivotRoot => if !ok {
            InitStep::HandleError { pre_pivot_root: true }
        } else if fallback_log {
            InitStep::CopyFallbackLog
        } else {
            InitStep::SetupNetworking
        },
        InitStep::CopyFallbackLog => InitStep::SetupNetworking,
        InitStep::SetupNetworking => InitStep::SpawnWorker,
        InitStep::SpawnWorker => if ok {
            InitStep::WaitForChildren
        } else {
            InitStep::HandleError { pre_pivot_root: false }
        },
        InitStep::WaitForChildren => InitStep::WaitForChildren,
        InitStep::HandleError { .. } => InitStep::Reboot,
        InitStep::Reboot => InitStep::Reboot,
    }
}

/// The step after `step` (see `init_next_spec`).
pub fn init_next(step: InitStep, ok: bool, fallback_log: bool) -> (r: InitStep)
    ensures
        r == init_next_spec(step, ok, fallback_log),
{
    match step {
        InitStep::ReadConfig => if ok {
            InitStep::CheckPid
        } else {
            InitStep::Reboot
        },
        InitStep::CheckPid => if ok {
            InitStep::ChangeDir
        } else {
            InitStep::HandleError { pre_pivot_root: true }
        },
        InitStep::ChangeDir => if ok {
            InitStep::CloseFds
        } else {
            InitStep::HandleError { pre_pivot_root: true }
        },
        InitStep::CloseFds => if !ok {
            InitStep::HandleError { pre_pivot_root: true }
        } else if !fallback_log {
            InitStep::SetupLog
        } else {
            InitStep::MakeRootPrivate
        },
        InitStep::SetupLog => InitStep::MakeRootPrivate,
        InitStep::MakeRootPrivate => if ok {
            InitStep::PivotRoot
        } else {
            InitStep::HandleError { pre_pivot_root: true }
        },
        InitStep::PivotRoot => if !ok {
            InitStep::HandleError { pre_pivot_root: true }
        } else if fallback_log {
            InitStep::CopyFallbackLog
        } else {
            InitStep::SetupNetworking
        },
        InitStep::CopyFallbackLog => InitStep::SetupNetworking,
        InitStep::SetupNetworking => InitStep::SpawnWorker,
        InitStep::SpawnWorker => if ok {
            InitStep::WaitForChildren
        } else {
            InitStep::HandleError { pre_pivot_root: false }
        },
        InitStep::WaitForChildren => InitStep::WaitForChildren,
        InitStep::HandleError { pre_pivot_root } => InitStep::Reboot,
        InitStep::Reboot => InitStep::Reboot,
    }
}

/// Where the init stands after the steps from `step` with the results `oks`.
pub open spec fn init_run(step: InitStep, oks: Seq<bool>, fallback_log: bool) -> InitStep
    decreases oks.len(),
{
    if oks.len() == 0 {
        step
    } else {
        init_run(
            init_next_spec(step, oks[0], fallback_log),
            oks.drop_first(),
            fallback_log,
        )
    }
}

/// Steps left before the init settles, at most.
pub open spec fn init_rank(step: InitStep) -> nat {
    match step {
        InitStep::ReadConfig => 11,
        InitStep::CheckPid => 10,
        InitStep::ChangeDir => 9,
        InitStep::CloseFds => 8,
        InitStep::SetupLog => 7,
        InitStep::MakeRootPrivate => 6,
        InitStep::PivotRoot => 5,
        InitStep::CopyFallbackLog => 4,
        InitStep::SetupNetworking => 3,
        InitStep::SpawnWorker => 2,
        InitStep::HandleError { .. } => 1,
        InitStep::WaitForChildren => 0,
        InitStep::Reboot => 0,
    }
}

/// The init settles: whatever the steps' results, within eleven steps it
/// either waits for its children for good or reboots.
pub proof fn law_init_settles(step: InitStep, oks: Seq<bool>, fallback_log: bool)
    requires
        oks.len() >= init_rank(step),
    ensures
        init_run(step, oks, fallback_log) == InitStep::WaitForChildren || init_run(
            step,
            oks,
            fallback_log,
        ) == InitStep::Reboot,
    decreases oks.len(),
{
    if oks.len() > 0 {
        law_init_settles(
            init_next_spec(step, oks[0], fallback_log),
            oks.drop_first(),
            fallback_log,
        );
    }
}

/// The fallback log and the log setup exclude each other: the log (and the
/// log device) is set up only where no fallback log was asked for, and the
/// fallback log is copied only where it was.
pub proof fn law_init_log_exclusive(step: InitStep, ok: bool, fallback_log: bool)
    ensures
        init_next_spec(step, ok, fallback_log) == InitStep::SetupLog ==> !fallback_log,
        init_next_spec(step, ok, fallback_log) == InitStep::CopyFallbackLog
            ==> fallback_log,
{
}

/// A failure is handled as one after the pivot only where the worker could
/// not be started, the step that follows the pivot.
pub proof fn law_init_error_phase(step: InitStep, ok: bool, fallback_log: bool)
    ensures
        init_next_spec(step, ok, fallback_log) == (InitStep::HandleError {
            pre_pivot_root: false,
        }) <==> step == InitStep::SpawnWorker && !ok,
{
}

/// What the error handler does.
#[derive(Debug, Clone, Copy, PartialEq, Eq, Structural)]
pub struct ErrorHandling {
    /// Log to a file in memory before anything else (the log is still
    /// buffered before the pivot).
    pub setup_fallback_log: bool,
    /// Tell the balena API that the update failed.
    pub notify_failure: bool,
    /// Keep the fallback log on the data partition.
    pub persist_fallback_log: bool,
}

/// The error handler sets up the fallback log before the pivot, notifies the
/// API where progress reports were asked for, and keeps the fallback log where
/// one was asked for; then the device reboots.
pub fn error_handling(pre_pivot_root: bool, cfg: &Stage2Config) -> (r: ErrorHandling)
    ensures
        r.setup_fallback_log == pre_pivot_root,
        r.notify_failure == cfg.report_hup_progress,
        r.persist_fallback_log == cfg.fallback_log,
{
    ErrorHandling {
        setup_fallback_log: pre_pivot_root,
        notify_failure: cfg.report_hup_progress,
        persist_fallback_log: cfg.fallback_log,
    }
}

/// The files that standard output and standard error go to.
pub fn stdio_log_paths(takeover_dir: &str) -> (r: (String, String))
    ensures
        r.0@ == takeover_dir@ + "/stdout.log"@,
        r.1@ == takeover_dir@ + "/stderr.log"@,
{
    let mut o: Vec<char> = Vec::new();
    push_str(&mut o, takeover_dir);
    push_str(&mut o, "/stdout.log");
    let mut e: Vec<char> = Vec::new();
    push_str(&mut e, takeover_dir);
    push_str(&mut e, "/stderr.log");
    (string_from_chars(o.as_slice()), string_from_chars(e.as_slice()))
}

/// The descriptors to close: every one from 3 below 1024 but the write end of
/// the pipe that stands in for standard input, in increasing order.
pub fn fds_to_close(keep_fd: i32) -> (r: Vec<i32>)
    ensures
        forall|fd: i32| r@.contains(fd) <==> 3 <= fd < 1024 && fd != keep_fd,
        forall|i: int, j: int| 0 <= i < j < r@.len() ==> r@[i] < r@[j],
{
    let mut r: Vec<i32> = Vec::new();
    let mut fd: i32 = 3;
    while fd < 1024
        invariant
            3 <= fd <= 1024,
            forall|x: i32| r@.contains(x) <==> 3 <= x < fd && x != keep_fd,
            forall|i: int, j: int| 0 <= i < j < r@.len() ==> r@[i] < r@[j],
            forall|i: int| 0 <= i < r@.len() ==> r@[i] < fd,
        decreases 1024 - fd,
    {
        if fd != keep_fd {
            let ghost old_r = r@;
            r.push(fd);
            proof {
                assert forall|x: i32| r@.contains(x) <==> 3 <= x < fd + 1 && x != keep_fd by {
                    if r@.contains(x) {
                        let k = choose|k: int| 0 <= k < r@.len() && r@[k] == x;
                        if k < old_r.len() {
                            assert(old_r.contains(x));
                        }
                    }
                    if 3 <= x < fd + 1 && x != keep_fd {
                        if x < fd {
                            assert(old_r.contains(x));
                            let k = choose|k: int| 0 <= k < old_r.len() && old_r[k] == x;
                            assert(r@[k] == x);
                        } else {
                            assert(r@[old_r.len() as int] == x);
                        }
                    }
                }
            }
        } else {
            proof {
                assert forall|x: i32| r@.contains(x) <==> 3 <= x < fd + 1 && x != keep_fd by {
                }
            }
        }
        fd = fd + 1;
    }
    r
}

/// Where the log device is mounted, and the log file on it.
pub fn log_mount_paths(takeover_dir: &str) -> (r: (String, String))
    ensures
        r.0@ == path_append_spec(takeover_dir@, "/mnt/log"@),
        r.1@ == path_append_spec(path_append_spec(takeover_dir@, "/mnt/log"@), "stage2-init.log"@),
{
    let mp = path_append(takeover_dir, "/mnt/log");
    let lf = path_append(mp.as_str(), "stage2-init.log");
    (mp, lf)
}

/// The arguments that start the stage 2 worker at the given log level.
pub fn worker_args(log_level: &str) -> (r: Vec<String>)
    ensures
        r@.len() == 3,
        r@[0]@ == "--stage2"@,
        r@[1]@ == "--s2-log-level"@,
        r@[2]@ == log_level@,
{
    let mut r: Vec<String> = Vec::new();
    r.push("--stage2".to_string());
    r.push("--s2-log-level".to_string());
    r.push(log_level.to_string());
    r
}

/// The fallback log that stage 1 left in the old root's `/tmp`.
pub fn fallback_log_source(file_name: &str) -> (r: String)
    ensures
        r@ == OLD_ROOT_MP@ + "/tmp/"@ + file_name@,
{
    let mut v: Vec<char> = Vec::new();
    push_str(&mut v, OLD_ROOT_MP);
    push_str(&mut v, "/tmp/");
    push_str(&mut v, file_name);
    string_from_chars(v.as_slice())
}

/// What networking in the new root needs from the old one: the certificates
/// and the DNS resolver configuration.
pub fn networking_copies() -> (r: Vec<Transfer>)
    ensures
        r@.len() == 2,
        r@[0].from@ == path_append_spec(OLD_ROOT_MP@, "/etc/ssl/certs/ca-certificates.crt"@),
        r@[0].to@ == path_append_spec(CERTS_DIR@, "ca-certificates.crt"@),
        r@[1].from@ == path_append_spec(
            OLD_ROOT_MP@,
            "/var/run/resolvconf/interface/NetworkManager"@,
        ),
        r@[1].to@ == path_append_spec("/etc"@, "resolv.conf"@),
{
    let mut r: Vec<Transfer> = Vec::new();
    r.push(
        Transfer {
            from: path_append(OLD_ROOT_MP, "/etc/ssl/certs/ca-certificates.crt"),
            to: path_append(CERTS_DIR, "ca-certificates.crt"),
        },
    );
    r.push(
        Transfer {
            from: path_append(OLD_ROOT_MP, "/var/run/resolvconf/interface/NetworkManager"),
            to: path_append("/etc", "resolv.conf"),
        },
    );
    r
}

} // verus!
