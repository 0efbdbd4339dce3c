use takeover::common::options::{LogLevel, Options};
use takeover::common::{Error, ErrorKind};
use takeover::migrator::stage1::device_impl::{check_os, get_device, str_listed, Device, DeviceType};
use takeover::migrator::stage1::migrate_info::{BalenaCfgJson, ImageSource, MigrateInfo};
use takeover::migrator::stage1::utils::OSArch;
use takeover::common::stage2_config::{LogDevice, UmountPart};
use takeover::stage1::{block_info_dir, stage2_config};
use takeover::migrator::stage1::wifi_config::WifiSource;

fn options(no_os_check: bool) -> Options {
    Options {
        work_dir: None,
        image: Some("/root/balena.img.gz".to_string()),
        version: None,
        config: Some("/root/config.json".to_string()),
        log_level: LogLevel::Info,
        log_file: None,
        backup_cfg: None,
        s2_log_level: None,
        no_ack: false,
        pretend: false,
        stage2: false,
        tar_internal: false,
        no_cleanup: false,
        no_os_check,
        no_dt_check: false,
        no_api_check: false,
        no_vpn_check: false,
        no_efi_setup: false,
        no_nwmgr_check: false,
        no_keep_name: false,
        download_only: false,
        check_timeout: None,
        log_to: None,
        flash_to: None,
        no_wifis: false,
        wifi: None,
        nwmgr_cfg: None,
        change_dt_to: None,
    }
}

fn buster() -> Result<String, Error> {
    Ok("Raspbian GNU/Linux 10 (buster)".to_string())
}

#[test]
fn raspberry_pis() {
    let d = get_device(&options(false), OSArch::ARMHF, Some("Raspberry Pi 3 Model B Rev 1.2\0"), &buster(), &Ok(false))
        .unwrap();
    assert!(matches!(d, Device::RaspberryPi3(_)));
    assert_eq!(d.get_device_type(), DeviceType::RaspberryPi3);
    assert_eq!(d.get_device_type().slug(), "raspberrypi3");
    assert!(d.supports_device_type("raspberrypi3"));
    assert!(!d.supports_device_type("raspberrypi4-64"));
    let d = get_device(&options(false), OSArch::ARMHF, Some("Raspberry Pi 2 Model B"), &buster(), &Ok(false)).unwrap();
    assert!(matches!(d, Device::RaspberryPi2(_)));
    let e = get_device(&options(false), OSArch::ARMHF, Some("Raspberry Pi 5 Model B"), &buster(), &Ok(false))
        .unwrap_err();
    assert_eq!(e.kind, ErrorKind::InvParam);
}

#[test]
fn operating_system_checks() {
    let other = Ok("Gentoo".to_string());
    let e = get_device(&options(false), OSArch::ARMHF, Some("Raspberry Pi 3 Model B"), &other, &Ok(false))
        .unwrap_err();
    assert_eq!(e.kind, ErrorKind::Displayed);
    let d = get_device(&options(true), OSArch::ARMHF, Some("Raspberry Pi 3 Model B"), &other, &Ok(false)).unwrap();
    assert!(matches!(d, Device::RaspberryPi3(_)));
    assert!(check_os(&["A", "B"], &options(false), &Ok("B".to_string())).unwrap());
    assert!(!check_os(&["A", "B"], &options(false), &Ok("C".to_string())).unwrap());
    assert!(check_os(&["A", "B"], &options(true), &Ok("C".to_string())).unwrap());
    let failed: Result<String, Error> = Err(Error::with_context(ErrorKind::NotFound, "no os-release"));
    assert_eq!(check_os(&["A"], &options(false), &failed).unwrap_err().kind, ErrorKind::NotFound);
    assert!(str_listed(&["x", "y"], "y"));
    assert!(!str_listed(&["x", "y"], "z"));
}

#[test]
fn other_devices() {
    let e = get_device(&options(false), OSArch::ARMHF, Some("Some Board"), &buster(), &Ok(false)).unwrap_err();
    assert_eq!(e.kind, ErrorKind::InvState);
    let e = get_device(&options(false), OSArch::ARMHF, None, &buster(), &Ok(false)).unwrap_err();
    assert_eq!(e.kind, ErrorKind::Upstream);
    let ubuntu = Ok("Ubuntu 18.04.3 LTS".to_string());
    let d = get_device(&options(false), OSArch::AMD64, None, &ubuntu, &Ok(false)).unwrap();
    assert_eq!(d.get_device_type().slug(), "intel-nuc");
    assert!(d.supports_device_type("genericx86-64-ext"));
    let e = get_device(&options(false), OSArch::AMD64, None, &ubuntu, &Ok(true)).unwrap_err();
    assert_eq!(e.kind, ErrorKind::Displayed);
    let e = get_device(&options(false), OSArch::I386, None, &ubuntu, &Ok(false)).unwrap_err();
    assert_eq!(e.kind, ErrorKind::InvParam);
}

fn nuc() -> Device {
    get_device(&options(false), OSArch::AMD64, None, &Ok("Manjaro Linux".to_string()), &Ok(false)).unwrap()
}

#[test]
fn migrate_info_steps() {
    let opts = options(false);
    let cfg = MigrateInfo::config_step(&opts).unwrap();
    assert_eq!(cfg.path, "/root/config.json");
    let mut no_cfg = options(false);
    no_cfg.config = None;
    assert_eq!(MigrateInfo::config_step(&no_cfg).unwrap_err().kind, ErrorKind::Displayed);
    match MigrateInfo::image_step(&opts, true).unwrap() {
        ImageSource::Given(p) => assert_eq!(p, "/root/balena.img.gz"),
        other => panic!("unexpected {:?}", other),
    }
    assert_eq!(MigrateInfo::image_step(&opts, false).unwrap_err().kind, ErrorKind::Displayed);
    let mut no_image = options(false);
    no_image.image = None;
    assert!(matches!(MigrateInfo::image_step(&no_image, false).unwrap(), ImageSource::Download));
    assert!(MigrateInfo::wants_wifi_scan(&opts));
}

#[test]
fn migrate_info_new() {
    let mut opts = options(false);
    opts.nwmgr_cfg = Some(vec!["/etc/NetworkManager/system-connections/home".to_string()]);
    let cfg = BalenaCfgJson::new("/root/config.json");
    let mut info =
        MigrateInfo::new(&opts, nuc(), cfg, "/root/balena.img.gz", Vec::new(), " myhost\n", "Manjaro Linux").unwrap();
    assert_eq!(info.get_image_path(), "/root/balena.img.gz");
    assert!(info.is_x86());
    assert!(info.update_config());
    assert_eq!(info.get_balena_cfg().hostname.as_deref(), Some("myhost"));
    assert_eq!(info.get_nwmgr_files().len(), 1);
    info.set_to_dir("/balena-takeover");
    info.add_mount("/balena-takeover/proc");
    info.add_mount("/balena-takeover/sys");
    let (mounts, dir) = info.umount_all();
    assert_eq!(mounts, vec!["/balena-takeover/sys", "/balena-takeover/proc"]);
    assert_eq!(dir.as_deref(), Some("/balena-takeover"));
    assert!(info.get_mounts().is_empty());

    // no network configuration at all is refused
    let e = MigrateInfo::new(&options(false), nuc(), BalenaCfgJson::new("/c"), "/i", Vec::new(), "h", "o")
        .unwrap_err();
    assert_eq!(e.kind, ErrorKind::Displayed);
    // downloading only ends early
    let mut dl = options(false);
    dl.download_only = true;
    let e = MigrateInfo::new(&dl, nuc(), BalenaCfgJson::new("/c"), "/i", Vec::new(), "h", "o").unwrap_err();
    assert_eq!(e.kind, ErrorKind::ImageDownloaded);
}

#[test]
fn stage2_config_from_migration() {
    let mut opts = options(false);
    opts.s2_log_level = Some(LogLevel::Debug);
    opts.pretend = true;
    opts.change_dt_to = Some("raspberrypi4-64".to_string());
    opts.no_nwmgr_check = true;
    let info = MigrateInfo::new(
        &opts,
        nuc(),
        BalenaCfgJson::new("/root/config.json"),
        "/root/balena.img.gz",
        Vec::new(),
        "myhost",
        "Manjaro Linux",
    )
    .unwrap();
    let log_dev = Some(LogDevice { dev_name: "/dev/sdb1".to_string(), fs_type: "vfat".to_string() });
    let parts = vec![UmountPart {
        dev_name: "/dev/sda1".to_string(),
        mountpoint: "/boot".to_string(),
        fs_type: "vfat".to_string(),
    }];
    let cfg = stage2_config(
        &opts,
        &info,
        "/dev/sda".to_string(),
        log_dev,
        parts,
        "/root/work".to_string(),
        "/dev/pts/0".to_string(),
    );
    assert_eq!(cfg.log_level, "DEBUG");
    assert_eq!(cfg.flash_dev, "/dev/sda");
    assert!(cfg.pretend);
    assert_eq!(cfg.image_path, "/root/balena.img.gz");
    assert_eq!(cfg.config_path, "/root/config.json");
    assert_eq!(cfg.device_type, "intel-nuc");
    assert_eq!(cfg.work_dir, "/root/work");
    assert_eq!(cfg.tty, "/dev/pts/0");
    assert_eq!(cfg.log_dev.as_ref().map(|d| d.dev_name.as_str()), Some("/dev/sdb1"));
    assert_eq!(cfg.umount_parts.len(), 1);
    assert_eq!(cfg.umount_parts[0].mountpoint, "/boot");
    assert_eq!(cfg.change_dt_to.as_deref(), Some("raspberrypi4-64"));
    assert!(!cfg.fallback_log);
    assert!(cfg.backup_path.is_none());
    assert_eq!(cfg.api_key, "");
    // without a stage 2 level the general one is used
    opts.s2_log_level = None;
    let cfg = stage2_config(&opts, &info, String::new(), None, Vec::new(), String::new(), String::new());
    assert_eq!(cfg.log_level, "INFO");
    assert!(cfg.log_dev.is_none());
}

#[test]
fn block_info_dir_on_balena_os() {
    assert_eq!(block_info_dir("balenaOS 2.50.1"), "/mnt/data/");
    assert_eq!(block_info_dir("Raspbian GNU/Linux 10 (buster)"), "/");
    assert_eq!(block_info_dir(""), "/");
}

const WPA_TWO: &str = "network={\n    ssid=\"Home\"\n    psk=\"secret\"\n}\nnetwork={\n    ssid=\"Work\"\n    key_mgmt=NONE\n}\n";

#[test]
fn gather_migration_facts() {
    let wpa = WifiSource::WpaSupplicant(WPA_TWO.to_string());
    // the configuration must be given
    let mut no_cfg = options(false);
    no_cfg.config = None;
    let e = MigrateInfo::gather(&no_cfg, nuc(), "/i", &wpa, "h", "o").unwrap_err();
    assert_eq!(e.kind, ErrorKind::Displayed);
    // downloading only ends before the networks are looked at
    let mut dl = options(false);
    dl.download_only = true;
    let e = MigrateInfo::gather(&dl, nuc(), "/i", &WifiSource::ConnMgr, "h", "o").unwrap_err();
    assert_eq!(e.kind, ErrorKind::ImageDownloaded);
    // networks are taken from the source
    let opts = options(false);
    let info = MigrateInfo::gather(&opts, nuc(), "/root/balena.img.gz", &wpa, " myhost\n", "Manjaro Linux").unwrap();
    assert_eq!(info.get_wifis().len(), 2);
    assert_eq!(info.get_balena_cfg().get_path(), "/root/config.json");
    assert_eq!(info.get_balena_cfg().hostname.as_deref(), Some("myhost"));
    assert!(info.get_to_dir().is_none());
    // only the SSIDs given
    let mut one = options(false);
    one.wifi = Some(vec!["Work".to_string()]);
    let info = MigrateInfo::gather(&one, nuc(), "/i", &wpa, "h", "o").unwrap();
    assert_eq!(info.get_wifis().len(), 1);
    assert_eq!(info.get_wifis()[0].get_ssid(), "Work");
    // with wifis switched off and no SSIDs none are taken
    let mut off = options(false);
    off.no_wifis = true;
    off.no_nwmgr_check = true;
    let info = MigrateInfo::gather(&off, nuc(), "/i", &wpa, "h", "o").unwrap();
    assert!(info.get_wifis().is_empty());
    // and without them and without NetworkManager files the check fails
    off.no_nwmgr_check = false;
    let e = MigrateInfo::gather(&off, nuc(), "/i", &wpa, "h", "o").unwrap_err();
    assert_eq!(e.kind, ErrorKind::Displayed);
    // a source this library does not read
    let e = MigrateInfo::gather(&opts, nuc(), "/i", &WifiSource::ConnMgr, "h", "o").unwrap_err();
    assert_eq!(e.kind, ErrorKind::NotImpl);
}

#[test]
fn set_to_dir_keeps_the_rest() {
    let opts = options(false);
    let wpa = WifiSource::WpaSupplicant(WPA_TWO.to_string());
    let mut info = MigrateInfo::gather(&opts, nuc(), "/i", &wpa, "h", "o").unwrap();
    info.add_mount("/balena-takeover/proc");
    info.set_to_dir("/balena-takeover");
    assert_eq!(info.get_to_dir().as_deref(), Some("/balena-takeover"));
    assert_eq!(info.get_wifis().len(), 2);
    assert_eq!(info.get_mounts().len(), 1);
    assert_eq!(info.get_image_path(), "/i");
}
