use takeover::common::stage2_config::Stage2Config;
use takeover::migrator::init::{mig_init_next, MigInitStep};
use takeover::init::InitStep::{
    ChangeDir, CheckPid, CloseFds, CopyFallbackLog, HandleError, MakeRootPrivate, PivotRoot,
    ReadConfig, Reboot, SetupLog, SetupNetworking, SpawnWorker, WaitForChildren,
};
use takeover::init::{
    error_handling, fallback_log_source, fds_to_close, init_next, log_mount_paths,
    networking_copies, stdio_log_paths, worker_args, InitStep,
};

fn config(fallback_log: bool, report: bool) -> Stage2Config {
    Stage2Config {
        log_dev: None,
        log_level: "debug".to_string(),
        fallback_log,
        fallback_log_filename: "takeover.log".to_string(),
        fallback_log_dirname: "logs".to_string(),
        flash_dev: "/dev/sda".to_string(),
        pretend: false,
        umount_parts: Vec::new(),
        work_dir: "/root".to_string(),
        image_path: "/root/balena.img.gz".to_string(),
        config_path: "/root/config.json".to_string(),
        backup_path: None,
        device_type: "raspberrypi4-64".to_string(),
        tty: "/dev/tty1".to_string(),
        api_endpoint: "https://api.balena-cloud.com".to_string(),
        api_key: "SECRET-REDACTED".to_string(),
        uuid: "0123".to_string(),
        report_hup_progress: report,
        change_dt_to: None,
    }
}

#[test]
fn init_order_with_log_device() {
    let mut step = ReadConfig;
    let mut seen = vec![step];
    for _ in 0..10 {
        step = init_next(step, true, false);
        seen.push(step);
    }
    assert_eq!(
        seen,
        vec![
            ReadConfig,
            CheckPid,
            ChangeDir,
            CloseFds,
            SetupLog,
            MakeRootPrivate,
            PivotRoot,
            SetupNetworking,
            SpawnWorker,
            WaitForChildren,
            WaitForChildren
        ]
    );
}

#[test]
fn init_flushes_log_without_log_device() {
    // without a fallback log the log is set up and flushed, device or not
    assert_eq!(init_next(CloseFds, true, false), SetupLog);
    assert_eq!(init_next(SetupLog, true, false), MakeRootPrivate);
}

#[test]
fn init_order_with_fallback_log() {
    assert_eq!(init_next(CloseFds, true, true), MakeRootPrivate);
    assert_eq!(init_next(PivotRoot, true, true), CopyFallbackLog);
    assert_eq!(init_next(CopyFallbackLog, false, true), SetupNetworking);
}

#[test]
fn init_failures() {
    assert_eq!(init_next(ReadConfig, false, false), Reboot);
    for s in [CheckPid, ChangeDir, CloseFds, MakeRootPrivate, PivotRoot] {
        assert_eq!(init_next(s, false, false), HandleError { pre_pivot_root: true });
    }
    assert_eq!(init_next(SpawnWorker, false, false), HandleError { pre_pivot_root: false });
    assert_eq!(init_next(SetupLog, false, false), MakeRootPrivate);
    assert_eq!(init_next(SetupNetworking, false, false), SpawnWorker);
    assert_eq!(init_next(HandleError { pre_pivot_root: true }, true, false), Reboot);
}

#[test]
fn init_always_settles() {
    for mask in 0u32..2048 {
        for fallback in [false, true] {
            let mut step = ReadConfig;
            for i in 0..11 {
                step = init_next(step, mask & (1 << i) != 0, fallback);
                if step == SetupLog {
                    assert!(!fallback);
                }
                if step == CopyFallbackLog {
                    assert!(fallback);
                }
            }
            assert!(step == WaitForChildren || step == Reboot);
        }
    }
}

#[test]
fn error_handler_plan() {
    let h = error_handling(true, &config(true, true));
    assert!(h.setup_fallback_log && h.notify_failure && h.persist_fallback_log);
    let h = error_handling(false, &config(false, false));
    assert!(!h.setup_fallback_log && !h.notify_failure && !h.persist_fallback_log);
}

#[test]
fn init_paths_and_arguments() {
    let (o, e) = stdio_log_paths("/balena-takeover");
    assert_eq!(o, "/balena-takeover/stdout.log");
    assert_eq!(e, "/balena-takeover/stderr.log");
    let (mp, lf) = log_mount_paths("/balena-takeover");
    assert_eq!(mp, "/balena-takeover/mnt/log");
    assert_eq!(lf, "/balena-takeover/mnt/log/stage2-init.log");
    assert_eq!(worker_args("info"), vec!["--stage2", "--s2-log-level", "info"]);
    assert_eq!(fallback_log_source("takeover.log"), "/mnt/old_root/tmp/takeover.log");
    let c = networking_copies();
    assert_eq!(c[0].from, "/mnt/old_root/etc/ssl/certs/ca-certificates.crt");
    assert_eq!(c[0].to, "/etc/ssl/certs/ca-certificates.crt");
    assert_eq!(c[1].from, "/mnt/old_root/var/run/resolvconf/interface/NetworkManager");
    assert_eq!(c[1].to, "/etc/resolv.conf");
}

#[test]
fn descriptors_to_close() {
    let fds = fds_to_close(5);
    assert_eq!(fds.len(), 1020);
    assert_eq!(fds[0], 3);
    assert_eq!(fds[1], 4);
    assert_eq!(fds[2], 6);
    assert_eq!(*fds.last().unwrap(), 1023);
    assert!(!fds.contains(&5));
    assert_eq!(fds_to_close(2000).len(), 1021);
}

#[test]
fn migrator_init_order() {
    let mut step = MigInitStep::CheckPid;
    let mut seen = vec![step];
    for _ in 0..5 {
        step = mig_init_next(step, true);
        seen.push(step);
    }
    assert_eq!(
        seen,
        vec![
            MigInitStep::CheckPid,
            MigInitStep::CloseFds,
            MigInitStep::ReadConfig,
            MigInitStep::SetupLog,
            MigInitStep::SpawnWorker,
            MigInitStep::WaitForChildren
        ]
    );
    assert_eq!(mig_init_next(MigInitStep::ReadConfig, true), MigInitStep::SetupLog);
    assert_eq!(mig_init_next(MigInitStep::SetupLog, false), MigInitStep::SpawnWorker);
    for s in [MigInitStep::CheckPid, MigInitStep::CloseFds, MigInitStep::ReadConfig, MigInitStep::SpawnWorker] {
        assert_eq!(mig_init_next(s, false), MigInitStep::Reboot);
    }
}
