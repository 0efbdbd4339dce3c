//! The migrator's init, started as process 1 in the new root: the order of
//! its work, where any failure reboots the device.
use vstd::prelude::*;

verus! {

/// Where the log device is mounted.
pub const LOG_MOUNTPOINT: &'static str = "/mnt/log";
/// The log file of the init on the log device.
pub const INIT_LOG_FILE: &'static str = "/mnt/log/stage2-init.log";
/// Where standard output and standard error go once the descriptors are closed.
pub const STDOUT_LOG: &'static str = "/stdout.log";
pub const STDERR_LOG: &'static str = "/stderr.log";
/// The stage 2 worker, in the new root.
pub const WORKER_PATH: &'static str = "./takeover";

/// The steps of the migrator's init.
#[derive(Debug, Clone, Copy, PartialEq, Eq, Structural)]
pub enum MigInitStep {
    CheckPid,
    CloseFds,
    ReadConfig,
    SetupLog,
    SpawnWorker,
    WaitForChildren,
    Reboot,
}

/// The step after `step`, by whether it succeeded: checking the process id,
/// closing the descriptors, reading the configuration and starting the worker
/// must succeed, else the device reboots; then the log is set up (the log
/// device where the configuration names one) and flushed, and a failure there
/// does not stop the init.
pub open spec fn mig_init_next_spec(step: MigInitStep, ok: bool) -> MigInitStep {
    match step {
        MigInitStep::CheckPid => if ok {
            MigInitStep::CloseFds
        } else {
            MigInitStep::Reboot
        },
        MigInitStep::CloseFds => if ok {
            MigInitStep::ReadConfig
        } else {
            MigInitStep::Reboot
        },
        MigInitStep::ReadConfig => if ok {
            MigInitStep::SetupLog
        } else {
            MigInitStep::Reboot
        },
        MigInitStep::SetupLog => MigInitStep::SpawnWorker,
        MigInitStep::SpawnWorker => if ok {
            MigInitStep::WaitForChildren
        } else {
            MigInitStep::Reboot
        },
        MigInitStep::WaitForChildren => MigInitStep::WaitForChildren,
        MigInitStep::Reboot => MigInitStep::Reboot,
    }
}

/// The step after `step` (see `mig_init_next_spec`).
pub fn mig_init_next(step: MigInitStep, ok: bool) -> (r: MigInitStep)
    ensures
        r == mig_init_next_spec(step, ok),
{
    match step {
        MigInitStep::CheckPid => if ok {
            MigInitStep::CloseFds
        } else {
            MigInitStep::Reboot
        },
        MigInitStep::CloseFds => if ok {
            MigInitStep::ReadConfig
        } else {
            MigInitStep::Reboot
        },
        MigInitStep::ReadConfig => if ok {
            MigInitStep::SetupLog
        } else {
            MigInitStep::Reboot
        },
        MigInitStep::SetupLog => MigInitStep::SpawnWorker,
        MigInitStep::SpawnWorker => if ok {
            MigInitStep::WaitForChildren
        } else {
            MigInitStep::Reboot
        },
        MigInitStep::WaitForChildren => MigInitStep::WaitForChildren,
        MigInitStep::Reboot => MigInitStep::Reboot,
    }
}

/// Where the init stands after the steps from `step` with the results `oks`.
pub open spec fn mig_init_run(step: MigInitStep, oks: Seq<bool>) -> MigInitStep
    decreases oks.len(),
{
    if oks.len() == 0 {
        step
    } else {
        mig_init_run(mig_init_next_spec(step, oks[0]), oks.drop_first())
    }
}

/// Steps left before the init settles, at most.
pub open spec fn mig_init_rank(step: MigInitStep) -> nat {
    match step {
        MigInitStep::CheckPid => 5,
        MigInitStep::CloseFds => 4,
        MigInitStep::ReadConfig => 3,
        MigInitStep::SetupLog => 2,
        MigInitStep::SpawnWorker => 1,
        MigInitStep::WaitForChildren => 0,
        MigInitStep::Reboot => 0,
    }
}

/// The init settles: whatever the results, within five steps it waits for
/// its children for good or reboots, and it waits only where the worker was
/// started.
pub proof fn law_mig_init_settles(step: MigInitStep, oks: Seq<bool>)
    requires
        oks.len() >= mig_init_rank(step),
    ensures
        mig_init_run(step, oks) == MigInitStep::WaitForChildren || mig_init_run(
            step,
            oks,
        ) == MigInitStep::Reboot,
    decreases oks.len(),
{
    if oks.len() > 0 {
        law_mig_init_settles(mig_init_next_spec(step, oks[0]), oks.drop_first());
    }
}

/// The worker is waited for only once it was started.
pub proof fn law_mig_init_waits_for_worker(step: MigInitStep, ok: bool)
    ensures
        mig_init_next_spec(step, ok) == MigInitStep::WaitForChildren ==> (step
            == MigInitStep::WaitForChildren || (step == MigInitStep::SpawnWorker && ok)),
{
}

} // verus!
