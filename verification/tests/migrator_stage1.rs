use std::io::Write;

use flate2::write::GzEncoder;
use flate2::Compression;

use takeover::common::options::LogLevel;
use takeover::common::ErrorKind;
use takeover::migrator::common::mig_error::MigErrorKind;
use takeover::migrator::stage1::assets::Assets;
use takeover::migrator::stage1::backup::ext_tar_archiver::ExtTarArchiver;
use takeover::migrator::stage1::block_device_info::DeviceNum;
use takeover::migrator::stage1::efi_files::{EfiFiles, EfiWalk};
use takeover::migrator::stage1::exe_copy::{copy_target, parent_exec, ExeCopy, LibWalk};
use takeover::migrator::stage1::utils::{
    get_os_arch, is_secure_boot, mktemp, mktemp_args, whereis_candidates, whereis_output, OSArch,
};
use takeover::migrator::stage1::{check_space, confirm_answer, nwmgr_target_name, Confirmation};

#[test]
fn os_architectures() {
    assert_eq!(get_os_arch(true, "x86_64").unwrap(), OSArch::AMD64);
    assert_eq!(get_os_arch(true, "I386").unwrap(), OSArch::I386);
    assert_eq!(get_os_arch(true, "armv7l").unwrap(), OSArch::ARMHF);
    assert_eq!(get_os_arch(true, "riscv64").unwrap_err().inner.kind, MigErrorKind::InvParam);
    assert_eq!(get_os_arch(false, "x86_64").unwrap_err().inner.kind, MigErrorKind::ExecProcess);
}

#[test]
fn secure_boot_states() {
    assert!(!is_secure_boot(false, Some("SecureBoot enabled")).unwrap());
    assert!(!is_secure_boot(true, None).unwrap());
    assert!(is_secure_boot(true, Some("foo\nSecureBoot enabled\n")).unwrap());
    assert!(!is_secure_boot(true, Some("SecureBoot disabled")).unwrap());
    assert_eq!(
        is_secure_boot(true, Some("nothing here")).unwrap_err().inner.kind,
        MigErrorKind::InvParam
    );
}

#[test]
fn whereis_results() {
    assert_eq!(
        whereis_candidates("dd"),
        vec!["/bin/dd", "/usr/bin/dd", "/sbin/dd", "/usr/sbin/dd"]
    );
    assert_eq!(whereis_output(true, "dd: /bin/dd /usr/share/man").unwrap(), "/bin/dd");
    assert_eq!(whereis_output(true, "dd:").unwrap_err().inner.kind, MigErrorKind::NotFound);
    assert_eq!(whereis_output(true, "").unwrap_err().inner.kind, MigErrorKind::InvParam);
    assert_eq!(whereis_output(false, "x").unwrap_err().inner.kind, MigErrorKind::ExecProcess);
}

#[test]
fn mktemp_calls() {
    assert_eq!(
        mktemp_args(true, Some("tk.XXXX"), Some("/tmp")),
        vec!["-p", "/tmp", "-d", "tk.XXXX"]
    );
    assert_eq!(mktemp_args(false, None, None), Vec::<String>::new());
    assert_eq!(mktemp(true, "/tmp/tk.abcd").unwrap(), "/tmp/tk.abcd");
    assert_eq!(mktemp(false, "").unwrap_err().inner.kind, MigErrorKind::ExecProcess);
}

#[test]
fn space_and_answers() {
    assert!(check_space(10485760 + 1, 1).is_ok());
    assert_eq!(check_space(10485760, 1).unwrap_err().inner.kind, MigErrorKind::Displayed);
    assert_eq!(confirm_answer(" Y\n"), Confirmation::Yes);
    assert_eq!(confirm_answer("y"), Confirmation::AskAgain);
    assert_eq!(confirm_answer("n"), Confirmation::No);
    assert_eq!(nwmgr_target_name(1), "balena-01");
    assert_eq!(nwmgr_target_name(123), "balena-123");
}

#[test]
fn device_numbers() {
    let d = DeviceNum::new((8 << 8) | 2);
    assert_eq!((d.major(), d.minor()), (8, 2));
    let d = DeviceNum::new((259u64 << 8) | 7 | (0x100u64 << 12));
    assert_eq!((d.major(), d.minor()), (259, 263));
    assert_eq!(d.to_display_string(), "259:263");
    let p = DeviceNum::from_str(" 179:1\n").unwrap();
    assert_eq!((p.major, p.minor), (179, 1));
    assert_eq!(DeviceNum::from_str(&p.to_display_string()).unwrap(), p);
    assert_eq!(DeviceNum::from_str("8-1").unwrap_err().kind, ErrorKind::InvState);
}

#[test]
fn busybox_sizes() {
    let data = vec![42u8; 5000];
    let mut enc = GzEncoder::new(Vec::new(), Compression::default());
    enc.write_all(&data).unwrap();
    let gz = enc.finish().unwrap();
    let assets = Assets::new(OSArch::AMD64, gz);
    assert_eq!(assets.busybox_size().unwrap(), 5000);
    let bad = Assets::new(OSArch::ARMHF, vec![1, 2, 3]);
    assert_eq!(bad.busybox_size().unwrap_err().kind, ErrorKind::Upstream);
    assert_eq!(Assets::size_from_decoded(Some(7)).unwrap(), 7);
    assert_eq!(Assets::size_from_decoded(None).unwrap_err().kind, ErrorKind::Upstream);
}

#[test]
fn build_numbers() {
    assert_eq!(Assets::get_build_num(b"1234").unwrap(), 1234);
    assert_eq!(Assets::get_build_num(b"12a").unwrap_err().kind, ErrorKind::Upstream);
    assert_eq!(Assets::get_build_num(&[0xff]).unwrap_err().kind, ErrorKind::Upstream);
}

#[test]
fn stage2_script() {
    let s = Assets::write_stage2_script("/balena-takeover", "/dev/tty1", LogLevel::Debug);
    assert!(s.contains("/balena-takeover"));
    assert!(s.contains("/dev/tty1"));
    assert!(s.contains("DEBUG"));
    assert!(!s.contains("__TO__"));
    assert!(!s.contains("__TTY__"));
    assert!(!s.contains("__LOG_LEVEL__"));
}

#[test]
fn tar_archiver_plan() {
    let a = ExtTarArchiver::new("/tmp/backup", "/tmp/backup.tgz");
    let plan = a.add_file("etc/hosts");
    assert_eq!(plan.link, "/tmp/backup/etc/hosts");
    assert_eq!(plan.parent_dir.as_deref(), Some("/tmp/backup/etc"));
    assert_eq!(a.finish_args(), vec!["-h", "-czf", "backup.tgz", "-C", "/tmp/backup", "."]);
}

#[test]
fn exe_copies() {
    let mut e = ExeCopy::new(vec![("dd".to_string(), Some("/bin/dd".to_string()))]).unwrap();
    let ldd = "\tlinux-vdso.so.1 (0x00007ffd)\n\tlibc.so.6 => /lib/x86_64-linux-gnu/libc.so.6 (0x00007f)\n\t/lib64/ld-linux-x86-64.so.2 (0x00007f1)\n";
    let c = e.get_libs(ldd);
    assert_eq!(c.len(), 2);
    assert_eq!(c[0].path, "/lib/x86_64-linux-gnu/libc.so.6");
    assert!(!c[0].must_exist);
    assert_eq!(c[1].path, "/lib64/ld-linux-x86-64.so.2");
    assert!(c[1].must_exist);
    assert!(e.add_lib("/lib/x86_64-linux-gnu/libc.so.6", 100));
    assert!(!e.add_lib("/lib/x86_64-linux-gnu/libc.so.6", 100));
    assert_eq!(e.get_req_space(), 100);
    assert_eq!(e.get_libs(ldd).len(), 1);
    let copies = e.copy_files("/balena-takeover").unwrap();
    assert_eq!(copies.len(), 2);
    assert_eq!(copies[0].src, "/bin/dd");
    assert_eq!(copies[0].dest_dir, "/balena-takeover/bin");
    assert_eq!(copies[0].dest_path, "/balena-takeover/bin/dd");
    assert_eq!(copies[1].dest_path, "/balena-takeover/lib/x86_64-linux-gnu/libc.so.6");
    assert_eq!(parent_exec("/usr/lib/x.so").as_deref(), Some("/usr/lib"));
    assert_eq!(copy_target("/t", "/").unwrap_err().kind, ErrorKind::InvState);
}

#[test]
fn efi_files() {
    let mut f = EfiFiles::new();
    assert!(f.add_file("/usr/lib/libefivar.so.1", 50));
    assert!(!f.add_file("/usr/lib/libefivar.so.1", 50));
    assert_eq!(f.get_req_space(), 50);
    let copies = f.copy_files("/balena-takeover").unwrap();
    assert_eq!(copies[0].dest_path, "/balena-takeover/usr/lib/libefivar.so.1");
}

#[test]
fn network_file_names_are_distinct() {
    let names: Vec<String> = (0..120).map(nwmgr_target_name).collect();
    for i in 0..names.len() {
        for j in (i + 1)..names.len() {
            assert_ne!(names[i], names[j]);
        }
    }
    assert_eq!(nwmgr_target_name(7), "balena-07");
}

#[test]
fn exe_lookups_by_name() {
    let e = ExeCopy::new(vec![
        ("dd".to_string(), Some("/bin/dd".to_string())),
        ("efibootmgr".to_string(), Some("/sbin/efibootmgr".to_string())),
        ("dd".to_string(), Some("/usr/bin/dd".to_string())),
    ])
    .unwrap();
    assert_eq!(
        e.get_exec_paths(),
        vec![
            ("dd".to_string(), "/usr/bin/dd".to_string()),
            ("efibootmgr".to_string(), "/sbin/efibootmgr".to_string())
        ]
    );
    let err = ExeCopy::new(vec![
        ("dd".to_string(), Some("/bin/dd".to_string())),
        ("mtd_debug".to_string(), None),
    ])
    .unwrap_err();
    assert_eq!(err.kind, ErrorKind::FileNotFound);
}

#[test]
fn library_walk_reads_each_file_once() {
    let mut e = ExeCopy::new(vec![("dd".to_string(), Some("/bin/dd".to_string()))]).unwrap();
    let mut walk = LibWalk::new(&e);
    assert_eq!(walk.next_file().as_deref(), Some("/bin/dd"));
    assert!(walk.take_lib(&mut e, "/lib/libc.so.6", 100));
    assert!(walk.take_lib(&mut e, "/lib/libm.so.6", 50));
    assert!(!walk.take_lib(&mut e, "/lib/libc.so.6", 100));
    assert_eq!(walk.next_file().as_deref(), Some("/lib/libm.so.6"));
    // libm loads libc, which is held already
    assert!(!walk.take_lib(&mut e, "/lib/libc.so.6", 100));
    assert_eq!(walk.next_file().as_deref(), Some("/lib/libc.so.6"));
    assert_eq!(walk.next_file(), None);
    assert_eq!(e.get_req_space(), 150);
}

#[test]
fn efi_walk_counts_each_file_once() {
    let mut w = EfiWalk::new("/bin/efibootmgr");
    assert_eq!(w.next().as_deref(), Some("/bin/efibootmgr"));
    let ldd = "\tlinux-vdso.so.1 (0x00007ffd)\n\tlibefivar.so.1 => /lib/libefivar.so.1 (0x00007f1)\n\tlibc.so.6 => /lib/libc.so.6 (0x00007f2)\n";
    w.visit(true, 100, ldd).unwrap();
    // the first library named comes next
    assert_eq!(w.next().as_deref(), Some("/lib/libefivar.so.1"));
    w.visit(true, 50, "\tlibc.so.6 => /lib/libc.so.6 (0x00007f2)\n").unwrap();
    assert_eq!(w.next().as_deref(), Some("/lib/libc.so.6"));
    w.visit(true, 10, "\tstatically linked\n").unwrap();
    // libc was named twice but is looked at once
    assert_eq!(w.next(), None);
    assert_eq!(w.files.files, vec!["/bin/efibootmgr", "/lib/libefivar.so.1", "/lib/libc.so.6"]);
    assert_eq!(w.files.get_req_space(), 160);
    // a file that does not exist
    let mut w = EfiWalk::new("/bin/efibootmgr");
    assert!(w.next().is_some());
    assert_eq!(w.visit(false, 0, "").unwrap_err().kind, ErrorKind::FileNotFound);
}
