use takeover::common::logging::{
    copy_destination, fallback_log_file, fallback_log_target, fallback_log_tmp_path,
    old_root_data_mp, FallbackLogTarget,
};
use takeover::common::loop_device::{
    cbuffer_to_pathbuf, check_str_buffer, key_to_string, path_to_cbuffer, loop_path, setup_window, status_retry, LoopDevice,
    LoopInfo64, StatusRetry,
};
use takeover::common::stage2_config::Stage2Config;
use takeover::common::{
    dir_exists, dir_from_stat, file_exists, format_size_with_unit, hex_dump, mode_is_dir,
    mountpoint_in_mtab, os_name_from_release, path_append, path_to_cstring, pids_from_output,
    string_from_c_string, ErrorKind,
};
use takeover::migrator::common::dir_from_metadata;
use takeover::migrator::stage2::loop_device::{cbuffer_to_string, u8_slice_to_string};
use takeover::migrator::common::mig_error::MigErrorKind;

#[test]
fn test_path_to_cstring() {
    const PATH: &str = "/bla/blub";
    let c_path = path_to_cstring(PATH).unwrap();
    assert_eq!(string_from_c_string(&c_path).unwrap(), PATH);
}

#[test]
fn cstring_bytes() {
    assert_eq!(path_to_cstring("/a").unwrap(), vec![b'/', b'a', 0]);
    assert_eq!(path_to_cstring("/a\0b").unwrap_err().kind, ErrorKind::Upstream);
    assert_eq!(string_from_c_string(b"abc\0def").unwrap(), "abc");
    assert_eq!(string_from_c_string(b"abc").unwrap_err().kind, ErrorKind::InvParam);
    // bytes that are no UTF-8 are replaced as from_utf8_lossy does
    assert_eq!(string_from_c_string(&[0x61, 0xff, 0x62, 0]).unwrap(), "a\u{FFFD}b");
}

#[test]
fn hex_dump_lines() {
    assert_eq!(hex_dump(&[]), "");
    assert_eq!(hex_dump(b"A\n"), "0x00000000: 41 A  0a .  \n");
    let bytes: Vec<u8> = (0u8..17).map(|b| b + 0x30).collect();
    let d = hex_dump(&bytes);
    let lines: Vec<&str> = d.lines().collect();
    assert_eq!(lines.len(), 2);
    assert!(lines[0].starts_with("0x00000000: 30 0  31 1  "));
    assert_eq!(lines[1], "0x00000010: 40 @  ");
}

#[test]
fn size_units() {
    assert_eq!(format_size_with_unit(512), "512 B");
    assert_eq!(format_size_with_unit(10 * 1024), "10240 B");
    assert_eq!(format_size_with_unit(20 * 1024), "20 KiB");
    assert_eq!(format_size_with_unit(11 * 1024 * 1024 + 5), "11 MiB");
    assert_eq!(format_size_with_unit(12 * 1024 * 1024 * 1024), "12 GiB");
}

#[test]
fn path_append_joins_below() {
    assert_eq!(path_append("/mnt/old_root", "/etc/fstab"), "/mnt/old_root/etc/fstab");
    assert_eq!(path_append("/mnt/old_root", "etc"), "/mnt/old_root/etc");
    assert_eq!(path_append("/transfer", "/"), "/transfer");
    // an absolute path stays below the base
    assert!(path_append("/base", "/x/y").starts_with("/base"));
}

#[test]
fn mtab_lookup() {
    let mtab = "/dev/sda1 /boot vfat rw 0 0\n/dev/sda2 / ext4 rw 0 0\n";
    assert_eq!(mountpoint_in_mtab(mtab, "/dev/sda2").unwrap(), Some("/".to_string()));
    assert_eq!(mountpoint_in_mtab(mtab, "/dev/sdb1").unwrap(), None);
    assert_eq!(mountpoint_in_mtab("/dev/sda3\n", "/dev/sda3").unwrap_err().kind, ErrorKind::InvState);
}

#[test]
fn pidof_output() {
    assert_eq!(pids_from_output(true, "123 45\n").unwrap(), vec![123, 45]);
    assert_eq!(pids_from_output(false, "junk").unwrap(), Vec::<u32>::new());
    assert_eq!(pids_from_output(true, "12 x").unwrap_err().kind, ErrorKind::Upstream);
}

#[test]
fn os_release_name() {
    let text = "NAME=\"Ubuntu\"\nPRETTY_NAME=\"Ubuntu 22.04.3 LTS\"\nID=ubuntu\n";
    assert_eq!(os_name_from_release(text).unwrap(), "Ubuntu 22.04.3 LTS");
    assert_eq!(os_name_from_release("ID=x\n").unwrap_err().kind, ErrorKind::NotFound);
}

#[test]
fn stat_answers() {
    assert!(mode_is_dir(0o040755));
    assert!(!mode_is_dir(0o100644));
    assert_eq!(dir_from_stat(Ok(0o040755)).unwrap(), true);
    assert_eq!(dir_from_stat(Ok(0o100644)).unwrap(), false);
    assert_eq!(dir_from_stat(Err(2)).unwrap(), false);
    assert_eq!(dir_from_stat(Err(13)).unwrap_err().kind, ErrorKind::Upstream);
    assert!(file_exists("/"));
    assert_eq!(dir_exists("/").unwrap(), true);
    assert_eq!(dir_exists("/no/such/directory/here").unwrap(), false);
    assert_eq!(dir_from_metadata(false, Err(())).unwrap(), false);
    assert_eq!(dir_from_metadata(true, Ok(true)).unwrap(), true);
    assert_eq!(dir_from_metadata(true, Err(())).unwrap_err().inner.kind, MigErrorKind::Upstream);
    assert_eq!(takeover::migrator::common::dir_exists("/").unwrap(), true);
}

#[test]
fn sanitized_config_hides_key() {
    let text = "api_endpoint: x\napi_key: SECRET-REDACTED\nuuid: y";
    assert_eq!(
        Stage2Config::sanitize_text(text),
        "api_endpoint: x\napi_key: <hidden>\nuuid: y\n"
    );
    assert_eq!(
        Stage2Config::sanitize_text("api_key: a"),
        Stage2Config::sanitize_text("api_key: b")
    );
}

#[test]
fn fallback_log_places() {
    assert_eq!(fallback_log_file("takeover.log"), "/tmp/takeover.log");
    assert_eq!(fallback_log_tmp_path("takeover.log"), "/tmp/takeover.log");
    match fallback_log_target(true, true, true, "logs") {
        FallbackLogTarget::FlashedDataPartition(d) => assert_eq!(d, "/mnt/balena-part/logs"),
        other => panic!("unexpected {:?}", other),
    }
    match fallback_log_target(false, true, true, "logs") {
        FallbackLogTarget::Dir(d) => assert_eq!(d, "/mnt/data//logs"),
        other => panic!("unexpected {:?}", other),
    }
    match fallback_log_target(false, false, true, "logs") {
        FallbackLogTarget::Dir(d) => assert_eq!(d, "/mnt/old_root//mnt/data//logs"),
        other => panic!("unexpected {:?}", other),
    }
    assert!(matches!(fallback_log_target(false, false, false, "logs"), FallbackLogTarget::Nowhere));
    assert_eq!(old_root_data_mp(), "/mnt/old_root/mnt/data");
    assert_eq!(
        copy_destination("/tmp/takeover.log", true, "/mnt/data/logs").unwrap(),
        "/mnt/data/logs/takeover.log"
    );
    assert_eq!(
        copy_destination("/tmp/takeover.log", false, "/x").unwrap_err().kind,
        ErrorKind::FileNotFound
    );
}

#[test]
fn loop_info_records() {
    let info = LoopInfo64::for_file("/dev/sda", 512, 1024).unwrap();
    assert_eq!(info.lo_offset, 512);
    assert_eq!(info.lo_sizelimit, 1024);
    assert_eq!(&info.lo_file_name[..9], b"/dev/sda\0");
    assert!(check_str_buffer(&info.lo_file_name));
    let long = "/".repeat(64);
    assert_eq!(LoopInfo64::for_file(&long, 0, 0).unwrap_err().kind, ErrorKind::InvParam);
    assert_eq!(LoopInfo64::for_file("a\0b", 0, 0).unwrap_err().kind, ErrorKind::Upstream);
    assert_eq!(key_to_string(&[9, 9, 9], Some(2)), "0001");
    assert_eq!(key_to_string(&[0u8; 17], None).len(), 34);
}

#[test]
fn loop_device_state() {
    assert_eq!(loop_path(7), "/dev/loop7");
    let free = LoopDevice::from_status(3, true, Err(6)).unwrap();
    assert_eq!(free.get_path(), "/dev/loop3");
    assert!(!free.in_use());
    assert!(free.check_setup().is_ok());
    assert_eq!(free.modify_offset_file().unwrap_err().kind, ErrorKind::InvState);
    assert_eq!(LoopDevice::from_status(3, true, Err(5)).unwrap_err().kind, ErrorKind::Upstream);
    let info = LoopInfo64::for_file("/images/a.img", 0, 0).unwrap();
    let mut used = LoopDevice::from_status(0, false, Ok(info)).unwrap();
    assert_eq!(used.file.as_deref(), Some("/images/a.img"));
    assert_eq!(used.check_setup().unwrap_err().kind, ErrorKind::InvState);
    assert!(!used.unset_on_drop());
    used.set_auto_unset(true);
    assert!(used.unset_on_drop());
    used.detach();
    assert!(!used.unset_on_drop());
    let mut fresh = LoopDevice::created(9, false);
    fresh.attach("/x.img".to_string());
    assert_eq!(fresh.modify_offset_file().unwrap(), "/x.img");
    assert_eq!(setup_window(Some(4), None), (4, 0));
    assert_eq!(status_retry(11, 3), StatusRetry::Again { retries: 2, pause: true });
    assert_eq!(status_retry(11, 1), StatusRetry::Again { retries: 0, pause: false });
    assert_eq!(status_retry(22, 3), StatusRetry::Fail);
}

#[test]
fn cbuffer_roundtrip() {
    let mut buffer = [7u8; 16];
    path_to_cbuffer("/dev/sda", &mut buffer).unwrap();
    assert_eq!(cbuffer_to_pathbuf(&buffer), b"/dev/sda".to_vec());
    assert_eq!(buffer[9], 7);
    let mut small = [7u8; 8];
    assert_eq!(path_to_cbuffer("/dev/sda", &mut small).unwrap_err().kind, ErrorKind::InvParam);
    assert_eq!(small, [7u8; 8]);
    assert_eq!(cbuffer_to_pathbuf(b"abc"), b"abc".to_vec());
    assert!(!check_str_buffer(b"abc"));
}

#[test]
fn buffer_texts() {
    assert_eq!(u8_slice_to_string(b"loop0\0junk").unwrap(), "loop0");
    assert_eq!(u8_slice_to_string(b"no-nul").unwrap(), "no-nul");
    assert_eq!(u8_slice_to_string(&[0x61, 0xfe]).unwrap(), "a\u{FFFD}");
    assert_eq!(cbuffer_to_string(b"/dev/sda\0\0\0"), "/dev/sda");
}
