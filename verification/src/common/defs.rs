//! Names of commands, directories and files that the stages agree on.
use vstd::prelude::*;

verus! {

pub const SWAPOFF_CMD: &'static str = "swapoff";
pub const TELINIT_CMD: &'static str = "telinit";
pub const MOUNT_CMD: &'static str = "mount";
pub const PIVOT_ROOT_CMD: &'static str = "pivot_root";
pub const EFIBOOTMGR_CMD: &'static str = "efibootmgr";
pub const DD_CMD: &'static str = "dd";
/// Clears and writes the QSPI of Jetson Xavier NX devices.
pub const MTD_DEBUG_CMD: &'static str = "mtd_debug";
pub const FUSER_CMD: &'static str = "fuser";
pub const REBOOT_CMD: &'static str = "reboot";

pub const TAKEOVER_DIR: &'static str = "/balena-takeover";
pub const STAGE2_CONFIG_NAME: &'static str = "stage2-config.yml";

pub const BALENA_IMAGE_NAME: &'static str = "balena.img.gz";
pub const BALENA_IMAGE_PATH: &'static str = "/balena.img.gz";
pub const BALENA_CONFIG_PATH: &'static str = "/config.json";

/// File system of the balenaOS boot partition.
pub const BALENA_BOOT_FSTYPE: &'static str = "vfat";
/// File system of the balenaOS data partition.
pub const BALENA_DATA_FSTYPE: &'static str = "ext4";

pub const OLD_ROOT_MP: &'static str = "/mnt/old_root";
pub const BALENA_PART_MP: &'static str = "/mnt/balena-part";

/// Where balenaOS keeps NetworkManager connection files.
pub const SYSTEM_CONNECTIONS_DIR: &'static str = "system-connections";
/// Where balenaOS keeps redsocks proxy configuration files.
pub const SYSTEM_PROXY_DIR: &'static str = "system-proxy";

pub const BALENA_DATA_MP: &'static str = "/mnt/data/";
pub const BALENA_OS_NAME: &'static str = "balenaOS";

pub const SYS_EFI_DIR: &'static str = "/sys/firmware/efi";
pub const SYS_EFIVARS_DIR: &'static str = "/sys/firmware/efi/efivars";

pub const BACKUP_ARCH_NAME: &'static str = "backup.tgz";

} // verus!
