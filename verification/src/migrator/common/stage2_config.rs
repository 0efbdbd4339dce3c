//! The configuration that the migrator's stage 1 hands to stage 2.
use vstd::prelude::*;

pub use crate::common::stage2_config::UmountPart;

verus! {

#[derive(Debug, Clone)]
pub struct Stage2Config {
    pub log_dev: Option<String>,
    pub flash_dev: String,
    pub pretend: bool,
    pub umount_parts: Vec<UmountPart>,
    pub work_dir: String,
    pub image_path: String,
    pub config_path: String,
    pub backup_path: Option<String>,
    pub efi_boot_mgr_path: Option<String>,
}

impl Stage2Config {
    pub fn get_log_dev(&self) -> (r: &Option<String>)
        ensures
            *r == self.log_dev,
    {
        &self.log_dev
    }

    pub fn get_flash_dev(&self) -> (r: &String)
        ensures
            *r == self.flash_dev,
    {
        &self.flash_dev
    }
}

} // verus!
