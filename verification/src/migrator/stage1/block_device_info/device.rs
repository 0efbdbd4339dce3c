//! Whole block devices.
use vstd::prelude::*;

use crate::migrator::stage1::block_device_info::mount::{Mount, MountModel};
use crate::migrator::stage1::block_device_info::DeviceNum;

verus! {

/// A block device, as `/sys/block` lists it.
#[derive(Debug)]
pub struct Device {
    pub name: String,
    pub device_num: DeviceNum,
    pub mounted: Option<Mount>,
}

pub struct DeviceModel {
    pub name: Seq<char>,
    pub device_num: DeviceNum,
    pub mounted: Option<MountModel>,
}

pub open spec fn opt_mount(m: Option<Mount>) -> Option<MountModel> {
    match m {
        Some(x) => Some(x@),
        None => None,
    }
}

impl View for Device {
    type V = DeviceModel;

    open spec fn view(&self) -> DeviceModel {
        DeviceModel { name: self.name@, device_num: self.device_num, mounted: opt_mount(self.mounted) }
    }
}

impl Device {
    /// A copy of the device.
    pub fn duplicate(&self) -> (r: Device)
        ensures
            r == *self,
    {
        Device {
            name: self.name.clone(),
            device_num: self.device_num,
            mounted: match &self.mounted {
                Some(m) => Some(m.duplicate()),
                None => None,
            },
        }
    }
}

} // verus!
