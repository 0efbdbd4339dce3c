use takeover::common::stage2_config::{Stage2Config, UmountPart};
use takeover::common::ErrorKind;
use takeover::migrator::common::disk_util::PartInfo;
use takeover::migrator::stage2::Stage2Step::{
    CopyFiles, Flash, KillProcs, ReadConfig, Reboot, TransferFiles, Unmount, Validate,
};
use takeover::migrator::stage2::{
    backup_transfer, boot_config_transfer, boot_connections_transfer, check_ramfs_space, dd_args,
    block_to_write, entry_target, flash_block_action, flash_outcome, flash_rate, fuser_args, get_required_space,
    kill_outcome, loop_window, nwmgr_source_dir, nwmgr_transfer_dir, nwmgr_transfer_target,
    stage2_next, transfer_plan, unmount_target, validate_step, BlockAction, FlashEnd, FlashState,
    Stage2Step, ValidateState, ValidateStep, VALIDATE_BLOCK_SIZE,
};

fn config(backup: Option<&str>, pretend: bool) -> Stage2Config {
    Stage2Config {
        log_dev: None,
        log_level: "info".to_string(),
        fallback_log: false,
        fallback_log_filename: "stage2.log".to_string(),
        fallback_log_dirname: "logs".to_string(),
        flash_dev: "/dev/sda".to_string(),
        pretend,
        umount_parts: Vec::new(),
        work_dir: "/home/user/work".to_string(),
        image_path: "/home/user/work/balena.img.gz".to_string(),
        config_path: "/home/user/work/config.json".to_string(),
        backup_path: backup.map(|b| b.to_string()),
        device_type: "intel-nuc".to_string(),
        tty: "/dev/tty1".to_string(),
        api_endpoint: "https://api.balena-cloud.com".to_string(),
        api_key: "SECRET-REDACTED".to_string(),
        uuid: "abc".to_string(),
        report_hup_progress: false,
        change_dt_to: None,
    }
}

#[test]
fn required_space_sums_all_files() {
    assert_eq!(get_required_space(1000, 20, Some(300), &[4, 5, 6]), 1335);
    assert_eq!(get_required_space(1000, 20, None, &[]), 1020);
}

#[test]
fn ramfs_space_needs_margin() {
    assert!(check_ramfs_space(10 * 1024 * 1024 + 100, 100).is_ok());
    let e = check_ramfs_space(10 * 1024 * 1024 + 99, 100).unwrap_err();
    assert_eq!(e.kind, ErrorKind::Displayed);
}

#[test]
fn transfer_plan_without_backup() {
    let plan = transfer_plan(&config(None, false));
    assert_eq!(plan.len(), 2);
    assert_eq!(plan[0].from, "/mnt/old_root/home/user/work/balena.img.gz");
    assert_eq!(plan[0].to, "/transfer/balena.img.gz");
    assert_eq!(plan[1].from, "/mnt/old_root/home/user/work/config.json");
    assert_eq!(plan[1].to, "/transfer/config.json");
}

#[test]
fn transfer_plan_with_backup() {
    let plan = transfer_plan(&config(Some("/tmp/backup.tgz"), false));
    assert_eq!(plan.len(), 3);
    assert_eq!(plan[2].from, "/mnt/old_root/tmp/backup.tgz");
    assert_eq!(plan[2].to, "/transfer/backup.tgz");
}

#[test]
fn nwmgr_directories() {
    assert_eq!(
        nwmgr_source_dir("/home/user/work"),
        "/mnt/old_root/home/user/work/system-connections"
    );
    assert_eq!(nwmgr_transfer_dir(), "/transfer/system-connections");
}

#[test]
fn entry_targets_keep_file_names() {
    assert_eq!(
        entry_target("/transfer/system-connections", "/a/b/balena-01"),
        Some("/transfer/system-connections/balena-01".to_string())
    );
    assert_eq!(entry_target("/x", "/"), None);
    assert_eq!(
        nwmgr_transfer_target("/x", "/").unwrap_err().kind,
        ErrorKind::Displayed
    );
    assert_eq!(nwmgr_transfer_target("/x", "/y/z").unwrap(), "/x/z");
}

#[test]
fn fuser_arguments() {
    assert_eq!(
        fuser_args("TERM"),
        vec!["fuser", "-k", "-TERM", "-m", "/mnt/old_root"]
    );
}

#[test]
fn kill_outcome_as_written() {
    assert!(kill_outcome(false, false).is_ok());
    assert_eq!(kill_outcome(true, false).unwrap_err().kind, ErrorKind::Displayed);
    assert_eq!(kill_outcome(false, true).unwrap_err().kind, ErrorKind::Displayed);
}

#[test]
fn unmount_below_old_root() {
    let p = UmountPart {
        dev_name: "/dev/sda2".to_string(),
        mountpoint: "/home".to_string(),
        fs_type: "ext4".to_string(),
    };
    assert_eq!(unmount_target(&p), "/mnt/old_root/home");
}

#[test]
fn boot_partition_files() {
    let c = boot_config_transfer("/mnt/balena-part");
    assert_eq!(c.from, "/transfer/config.json");
    assert_eq!(c.to, "/mnt/balena-part/config.json");
    let n = boot_connections_transfer("/mnt/balena-part");
    assert_eq!(n.from, "/transfer/system-connections");
    assert_eq!(n.to, "/mnt/balena-part/system-connections");
    let b = backup_transfer();
    assert_eq!(b.from, "/transfer/backup.tgz");
    assert_eq!(b.to, "/mnt/balena-part/backup.tgz");
}

#[test]
fn loop_window_in_bytes() {
    let p = PartInfo { index: 1, ptype: 0x0c, status: 0x80, start_lba: 8192, num_sectors: 81920 };
    assert_eq!(loop_window(&p), (4194304, 41943040));
}

#[test]
fn dd_arguments() {
    assert_eq!(dd_args("/dev/sda"), vec!["dd", "of=/dev/sda", "bs=131072"]);
}

#[test]
fn flash_blocks() {
    assert_eq!(flash_block_action(0), BlockAction::Stop);
    assert_eq!(flash_block_action(100), BlockAction::WriteAndStop);
    assert_eq!(flash_block_action(131072), BlockAction::WriteAndContinue);
    assert_eq!(flash_rate(1000, 3), 333);
}

#[test]
fn flash_outcomes() {
    assert_eq!(flash_outcome(FlashEnd::ImageOpenFailed), FlashState::FailRecoverable);
    assert_eq!(flash_outcome(FlashEnd::SpawnFailed), FlashState::FailRecoverable);
    assert_eq!(flash_outcome(FlashEnd::NoInput), FlashState::FailRecoverable);
    assert_eq!(flash_outcome(FlashEnd::ReadFailed), FlashState::FailNonRecoverable);
    assert_eq!(flash_outcome(FlashEnd::WriteFailed), FlashState::FailNonRecoverable);
    assert_eq!(flash_outcome(FlashEnd::Exited(true)), FlashState::Success);
    assert_eq!(flash_outcome(FlashEnd::Exited(false)), FlashState::FailNonRecoverable);
    assert_eq!(flash_outcome(FlashEnd::WaitFailed), FlashState::FailNonRecoverable);
}

#[test]
fn validate_identical_image() {
    let gz = vec![7u8; VALIDATE_BLOCK_SIZE];
    let st = ValidateState::new();
    let next = match validate_step(st, &gz, &gz) {
        ValidateStep::Continue(n) => n,
        other => panic!("unexpected {:?}", other),
    };
    assert_eq!(next.err_count, 0);
    assert_eq!(next.byte_offset, VALIDATE_BLOCK_SIZE as u64);
    let tail = vec![1u8, 2, 3];
    assert_eq!(validate_step(next, &tail, &[1u8, 2, 3, 4]), ValidateStep::Done(true));
    assert_eq!(validate_step(next, &[], &[]), ValidateStep::Done(true));
}

#[test]
fn validate_mismatches() {
    let st = ValidateState::new();
    // a short device block fails
    assert_eq!(validate_step(st, &[1, 2, 3], &[1, 2]), ValidateStep::Done(false));
    // a differing byte in a last block fails
    assert_eq!(validate_step(st, &[1, 2, 3], &[1, 9, 3]), ValidateStep::Done(false));
    // twenty differing bytes end validation at once
    let gz = vec![0u8; VALIDATE_BLOCK_SIZE];
    let mut tgt = vec![0u8; VALIDATE_BLOCK_SIZE];
    for b in tgt.iter_mut().take(20) {
        *b = 1;
    }
    assert_eq!(validate_step(st, &gz, &tgt), ValidateStep::Done(false));
    // fewer are counted and carried on, and never lead to success
    let mut tgt2 = vec![0u8; VALIDATE_BLOCK_SIZE];
    tgt2[5] = 1;
    let next = match validate_step(st, &gz, &tgt2) {
        ValidateStep::Continue(n) => n,
        other => panic!("unexpected {:?}", other),
    };
    assert_eq!(next.err_count, 1);
    assert_eq!(validate_step(next, &[], &[]), ValidateStep::Done(false));
}

#[test]
fn stage2_order() {
    let mut step = ReadConfig;
    let mut seen = vec![step];
    for _ in 0..7 {
        step = stage2_next(step, true, false);
        seen.push(step);
    }
    assert_eq!(
        seen,
        vec![ReadConfig, KillProcs, CopyFiles, Unmount, Flash, Validate, TransferFiles, Reboot]
    );
    assert_eq!(stage2_next(Unmount, true, true), Reboot);
    assert_eq!(stage2_next(CopyFiles, false, false), Reboot);
    assert_eq!(stage2_next(Flash, false, false), Reboot);
    assert_eq!(stage2_next(Validate, false, false), TransferFiles);
    assert_eq!(stage2_next(Reboot, true, false), Reboot);
}

#[test]
fn stage2_always_reboots() {
    for mask in 0u32..128 {
        for pretend in [false, true] {
            let mut step = ReadConfig;
            let mut flashed = false;
            for i in 0..7 {
                let ok = mask & (1 << i) != 0;
                step = stage2_next(step, ok, pretend);
                if step == Flash {
                    flashed = true;
                }
            }
            assert_eq!(step, Reboot);
            if flashed {
                assert!(!pretend);
            }
        }
    }
}

#[test]
fn block_bytes_written() {
    let prev = vec![9u8; 8];
    assert_eq!(block_to_write(&prev, &[1, 2, 3]), vec![1, 2, 3, 9, 9, 9, 9, 9]);
    assert_eq!(block_to_write(&prev, &[1, 2, 3, 4, 5, 6, 7, 8]), vec![1, 2, 3, 4, 5, 6, 7, 8]);
    assert_eq!(block_to_write(&[0u8; 4], &[]), vec![0, 0, 0, 0]);
}
