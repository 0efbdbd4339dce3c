use takeover::common::ErrorKind;
use takeover::migrator::stage1::block_device_info::block_device::BlockDevice;
use takeover::migrator::stage1::block_device_info::mount::Mount;
use takeover::migrator::stage1::block_device_info::partition::PartitionInfo;
use takeover::migrator::stage1::block_device_info::{
    BlockDeviceInfo, SysBlockDevice, SysBlockPartition,
};
use takeover::migrator::stage1::{get_umount_parts, Confirmation};
use takeover::stage1::{
    check_free_memory, config_dirs, confirm_takeover, copy_commands, is_supported_log_fs,
    migrate_info_failure, needs_efi_check, new_init_path, nwmgr_config_target,
    proxy_config_target, select_flash_device, select_log_device, sys_mounts, takeover_dir_action,
    prepare_end, prepare_next, telinit_copy_path, telinit_needs_copy, PrepareEnd, PrepareStep,
    TakeoverDirAction, TakeoverDirStat,
};

fn sda_info() -> BlockDeviceInfo {
    let mounts = Mount::from_mtab("/dev/sda2 / ext4 rw 0 0\n/dev/sda1 /boot vfat rw 0 0\n").unwrap();
    let entries = vec![SysBlockDevice {
        name: "sda".to_string(),
        dev: Some("8:0\n".to_string()),
        dev_exists: true,
        partitions: vec![
            SysBlockPartition { name: "sda1".to_string(), dev: Some("8:1\n".to_string()) },
            SysBlockPartition { name: "sda2".to_string(), dev: Some("8:2\n".to_string()) },
        ],
    }];
    // device 8:2 in the kernel's encoding
    BlockDeviceInfo::new((8 << 8) | 2, &mounts, &entries).unwrap()
}

#[test]
fn efi_check_and_commands() {
    assert!(needs_efi_check(true, false, false));
    assert!(!needs_efi_check(true, true, false));
    assert!(!needs_efi_check(true, false, true));
    assert!(!needs_efi_check(false, false, false));
    assert_eq!(copy_commands(false, false), vec!["dd"]);
    assert_eq!(copy_commands(true, false), vec!["dd", "efibootmgr"]);
    assert_eq!(copy_commands(true, true), vec!["dd", "efibootmgr", "mtd_debug"]);
    assert_eq!(copy_commands(false, true), vec!["dd", "mtd_debug"]);
}

#[test]
fn free_memory_needs_margin() {
    assert!(check_free_memory(10485760 + 5, 5).is_ok());
    assert_eq!(check_free_memory(10485760 + 4, 5).unwrap_err().kind, ErrorKind::InvState);
}

#[test]
fn takeover_dir_actions() {
    assert_eq!(takeover_dir_action(TakeoverDirStat::EmptyDir).unwrap(), TakeoverDirAction::Reuse);
    assert_eq!(takeover_dir_action(TakeoverDirStat::NotFound).unwrap(), TakeoverDirAction::Create);
    assert_eq!(
        takeover_dir_action(TakeoverDirStat::NonEmptyDir).unwrap_err().kind,
        ErrorKind::Displayed
    );
    assert_eq!(takeover_dir_action(TakeoverDirStat::NotADir).unwrap_err().kind, ErrorKind::Displayed);
    assert_eq!(takeover_dir_action(TakeoverDirStat::StatFailed).unwrap_err().kind, ErrorKind::Upstream);
    assert_eq!(takeover_dir_action(TakeoverDirStat::ReadFailed).unwrap_err().kind, ErrorKind::Upstream);
}

#[test]
fn system_mounts_in_order() {
    let m = sys_mounts("/balena-takeover", true);
    let got: Vec<(String, &str, &str, bool)> =
        m.iter().map(|x| (x.target.clone(), x.device, x.fs_type, x.fallback_tmpfs)).collect();
    assert_eq!(
        got,
        vec![
            ("/balena-takeover/proc".to_string(), "proc", "proc", false),
            ("/balena-takeover/tmp".to_string(), "tmpfs", "tmpfs", false),
            ("/balena-takeover/sys".to_string(), "sys", "sysfs", false),
            ("/balena-takeover/sys/firmware/efi/efivars".to_string(), "efivarfs", "efivarfs", false),
            ("/balena-takeover/dev".to_string(), "dev", "devtmpfs", true),
            ("/balena-takeover/dev/pts".to_string(), "devpts", "devpts", false),
        ]
    );
    assert_eq!(sys_mounts("/balena-takeover", false).len(), 5);
}

#[test]
fn network_config_targets() {
    let (nw, proxy) = config_dirs("/home/user/work");
    assert_eq!(nw, "/home/user/work/system-connections");
    assert_eq!(proxy, "/home/user/work/system-proxy");
    assert_eq!(
        nwmgr_config_target(&nw, "Ubuntu 22.04 LTS", 3, "/etc/NetworkManager/x"),
        "/home/user/work/system-connections/balena-03"
    );
    assert_eq!(
        nwmgr_config_target(&nw, "Debian", 12, "/etc/x"),
        "/home/user/work/system-connections/balena-12"
    );
    assert_eq!(
        nwmgr_config_target(&nw, "balenaOS 2.80", 1, "/mnt/boot/system-connections/my-wifi"),
        "/home/user/work/system-connections/my-wifi"
    );
    assert_eq!(
        proxy_config_target(&proxy, "/mnt/boot/system-proxy/redsocks.conf"),
        "/home/user/work/system-proxy/redsocks.conf"
    );
}

#[test]
fn log_filesystems() {
    assert!(is_supported_log_fs("vfat"));
    assert!(is_supported_log_fs("ext3"));
    assert!(is_supported_log_fs("ext4"));
    assert!(!is_supported_log_fs("ntfs"));
    assert!(!is_supported_log_fs("ext"));
}

#[test]
fn log_device_selection() {
    let mut info = sda_info();
    // no blkid information yet
    assert!(select_log_device(Some("/dev/sda1"), &info).is_none());
    assert!(select_log_device(None, &info).is_none());
    let pi = PartitionInfo::new("/dev/sda1: UUID=\"42D3-AAB8\" TYPE=\"vfat\"").unwrap();
    assert!(info.devices.set_partition_info("/dev/sda1", pi));
    let ld = select_log_device(Some("/dev/sda1"), &info).unwrap();
    assert_eq!(ld.dev_name, "/dev/sda1");
    assert_eq!(ld.fs_type, "vfat");
    // an unsupported file system gives no log device
    let pi2 = PartitionInfo::new("/dev/sda2: TYPE=\"btrfs\"").unwrap();
    assert!(info.devices.set_partition_info("/dev/sda2", pi2));
    assert!(select_log_device(Some("/dev/sda2"), &info).is_none());
    // a whole device is no partition
    let pi3 = PartitionInfo::new("/dev/sda: TYPE=\"vfat\"").unwrap();
    assert!(!info.devices.set_partition_info("/dev/sda", pi3));
    assert!(select_log_device(Some("/dev/sda"), &info).is_none());
    assert!(select_log_device(Some("/dev/sdz1"), &info).is_none());
}

#[test]
fn flash_device_selection() {
    let info = sda_info();
    match select_flash_device(None, &info).unwrap() {
        BlockDevice::Device(d) => assert_eq!(d.name, "sda"),
        other => panic!("unexpected {:?}", other),
    }
    match select_flash_device(Some("/dev/sda1"), &info).unwrap() {
        BlockDevice::Partition(p) => assert_eq!(p.name, "sda1"),
        other => panic!("unexpected {:?}", other),
    }
    assert_eq!(
        select_flash_device(Some("/dev/sdb"), &info).unwrap_err().kind,
        ErrorKind::InvState
    );
}

#[test]
fn confirmation_answers() {
    assert_eq!(confirm_takeover("Y\n"), Confirmation::Yes);
    assert_eq!(confirm_takeover("  y  "), Confirmation::Yes);
    assert_eq!(confirm_takeover("n\n"), Confirmation::No);
    assert_eq!(confirm_takeover("N"), Confirmation::AskAgain);
    assert_eq!(confirm_takeover("yes"), Confirmation::AskAgain);
}

#[test]
fn migrate_info_failures() {
    assert!(migrate_info_failure(ErrorKind::ImageDownloaded).is_ok());
    assert_eq!(migrate_info_failure(ErrorKind::InvState).unwrap_err().kind, ErrorKind::Upstream);
}

#[test]
fn init_and_telinit_paths() {
    assert_eq!(new_init_path("/balena-takeover"), "/balena-takeover/bin/takeover");
    assert_eq!(telinit_copy_path(), "/balena-takeover/bin/telinit");
    assert!(telinit_needs_copy("/sbin/init", "/sbin/init"));
    assert!(telinit_needs_copy("/sbin//init", "/sbin/init/"));
    assert!(!telinit_needs_copy("/lib/systemd/systemd", "/sbin/init"));
}

#[test]
fn preparation_order() {
    let mut step = PrepareStep::SwapOff;
    let mut seen = vec![step];
    while step != PrepareStep::Done {
        step = prepare_next(step, true);
        seen.push(step);
    }
    assert_eq!(seen.len(), 16);
    assert_eq!(seen[13], PrepareStep::BindInit);
    assert_eq!(seen[14], PrepareStep::RestartInit);
    // a failure anywhere ends the preparation for good, before the init is replaced
    for fail_at in 0..15 {
        let mut step = PrepareStep::SwapOff;
        for i in 0..20 {
            step = prepare_next(step, i != fail_at);
            if i >= fail_at {
                assert_eq!(step, PrepareStep::Failed);
            }
            if step == PrepareStep::BindInit {
                assert!(fail_at > 12);
            }
        }
    }
    assert_eq!(prepare_next(PrepareStep::Done, false), PrepareStep::Done);
    assert_eq!(prepare_end(true, true), PrepareEnd::Success);
    assert_eq!(prepare_end(false, true), PrepareEnd::CleanUpAndFail);
    assert_eq!(prepare_end(false, false), PrepareEnd::Fail);
}

#[test]
fn partitions_to_unmount_children_first() {
    let mounts = Mount::from_mtab(
        "/dev/sda1 /boot vfat rw 0 0\n/dev/sda2 / ext4 rw 0 0\n/dev/sda3 /boot/efi vfat rw 0 0\n/dev/sdb1 /data ext4 rw 0 0\n",
    )
    .unwrap();
    let entries = vec![
        SysBlockDevice {
            name: "sda".to_string(),
            dev: Some("8:0\n".to_string()),
            dev_exists: true,
            partitions: vec![
                SysBlockPartition { name: "sda1".to_string(), dev: Some("8:1\n".to_string()) },
                SysBlockPartition { name: "sda2".to_string(), dev: Some("8:2\n".to_string()) },
                SysBlockPartition { name: "sda3".to_string(), dev: Some("8:3\n".to_string()) },
            ],
        },
        SysBlockDevice {
            name: "sdb".to_string(),
            dev: Some("8:16\n".to_string()),
            dev_exists: true,
            partitions: vec![SysBlockPartition { name: "sdb1".to_string(), dev: Some("8:17\n".to_string()) }],
        },
    ];
    let info = BlockDeviceInfo::new((8 << 8) | 2, &mounts, &entries).unwrap();
    let flash = select_flash_device(None, &info).unwrap();
    let parts = get_umount_parts(flash, &info).unwrap();
    let mps: Vec<&str> = parts.iter().map(|p| p.mountpoint.as_str()).collect();
    assert_eq!(mps, vec!["/boot/efi", "/boot", "/"]);
    assert_eq!(parts[0].dev_name, "/dev/sda3");
    assert_eq!(parts[0].fs_type, "vfat");
}

#[test]
fn device_map_consistent() {
    let info = sda_info();
    let mut keys: Vec<&String> = info.devices.entries.iter().map(|(k, _)| k).collect();
    keys.sort();
    keys.dedup();
    assert_eq!(keys.len(), info.devices.entries.len());
    for (k, d) in &info.devices.entries {
        assert_eq!(*k, d.get_dev_path());
        if let Some(p) = d.get_parent() {
            assert!(d.get_name().starts_with(p.name.as_str()));
            assert!(info.devices.get(&format!("/dev/{}", p.name)).is_some());
        }
    }
    let rp = info.get_root_partition().as_ref().unwrap();
    assert!(rp.is_partition());
    assert_eq!(rp.get_device_num().major(), 8);
    assert_eq!(rp.get_device_num().minor(), 2);
    assert!(info.devices.get(&rp.get_dev_path()).is_some());
    let root = info.get_root_device();
    assert!(root.get_parent().is_none());
    assert_eq!(root.get_name(), rp.get_parent().unwrap().name);
    assert!(info.devices.get(&root.get_dev_path()).is_some());
}
