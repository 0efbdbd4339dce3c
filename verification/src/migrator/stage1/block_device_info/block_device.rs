//! A block device: a whole device or one of its partitions.
use vstd::prelude::*;

use crate::common::{path_append, path_append_spec};
use crate::migrator::stage1::block_device_info::device::{Device, DeviceModel};
use crate::migrator::stage1::block_device_info::mount::{Mount, MountModel};
use crate::migrator::stage1::block_device_info::partition::{
    Partition, PartitionInfo, PartitionInfoModel, PartitionModel,
};
use crate::migrator::stage1::block_device_info::DeviceNum;

verus! {

/// A whole device or a partition.
#[derive(Debug)]
pub enum BlockDevice {
    Device(Device),
    Partition(Partition),
}

pub enum BlockDevModel {
    Device(DeviceModel),
    Partition(PartitionModel),
}

impl View for BlockDevice {
    type V = BlockDevModel;

    open spec fn view(&self) -> BlockDevModel {
        match self {
            BlockDevice::Device(d) => BlockDevModel::Device(d@),
            BlockDevice::Partition(p) => BlockDevModel::Partition(p@),
        }
    }
}

impl BlockDevice {
    /// A copy of the device.
    pub fn duplicate(&self) -> (r: BlockDevice)
        ensures
            r == *self,
    {
        match self {
            BlockDevice::Device(d) => BlockDevice::Device(d.duplicate()),
            BlockDevice::Partition(p) => BlockDevice::Partition(p.duplicate()),
        }
    }

    pub fn get_device_num(&self) -> (r: &DeviceNum)
        ensures
            *r == match self {
                BlockDevice::Device(d) => d.device_num,
                BlockDevice::Partition(p) => p.device_num,
            },
    {
        match self {
            BlockDevice::Device(d) => &d.device_num,
            BlockDevice::Partition(p) => &p.device_num,
        }
    }

    pub fn get_mountpoint(&self) -> (r: &Option<Mount>)
        ensures
            *r == match self {
                BlockDevice::Device(d) => d.mounted,
                BlockDevice::Partition(p) => p.mounted,
            },
    {
        match self {
            BlockDevice::Device(d) => &d.mounted,
            BlockDevice::Partition(p) => &p.mounted,
        }
    }

    pub fn get_name(&self) -> (r: &str)
        ensures
            r@ == match self {
                BlockDevice::Device(d) => d.name@,
                BlockDevice::Partition(p) => p.name@,
            },
    {
        match self {
            BlockDevice::Device(d) => d.name.as_str(),
            BlockDevice::Partition(p) => p.name.as_str(),
        }
    }

    /// `/dev/` and the name.
    pub fn get_dev_path(&self) -> (r: String)
        ensures
            r@ == path_append_spec(
                "/dev"@,
                match self {
                    BlockDevice::Device(d) => d.name@,
                    BlockDevice::Partition(p) => p.name@,
                },
            ),
    {
        path_append("/dev", self.get_name())
    }

    /// The device that a partition belongs to.
    pub fn get_parent(&self) -> (r: Option<&Device>)
        ensures
            match self {
                BlockDevice::Device(_) => r is None,
                BlockDevice::Partition(p) => r == Some(&p.parent),
            },
    {
        match self {
            BlockDevice::Device(_) => None,
            BlockDevice::Partition(p) => Some(&p.parent),
        }
    }

    pub fn is_partition(&self) -> (r: bool)
        ensures
            r == (self is Partition),
    {
        match self {
            BlockDevice::Device(_) => false,
            BlockDevice::Partition(_) => true,
        }
    }

    pub fn set_mountpoint(&mut self, mountpoint: Mount)
        ensures
            match (*old(self), *final(self)) {
                (BlockDevice::Device(a), BlockDevice::Device(b)) => b == Device {
                    mounted: Some(mountpoint),
                    ..a
                },
                (BlockDevice::Partition(a), BlockDevice::Partition(b)) => b == Partition {
                    mounted: Some(mountpoint),
                    ..a
                },
                _ => false,
            },
    {
        match self {
            BlockDevice::Device(d) => {
                d.mounted = Some(mountpoint);
            },
            BlockDevice::Partition(p) => {
                p.mounted = Some(mountpoint);
            },
        }
    }

    /// What `blkid` told of a partition, where it was asked.
    pub fn get_partition_info(&self) -> (r: Option<&PartitionInfo>)
        ensures
            match self {
                BlockDevice::Device(_) => r is None,
                BlockDevice::Partition(p) => match p.partition_info {
                    Some(i) => r == Some(&i),
                    None => r is None,
                },
            },
    {
        match self {
            BlockDevice::Device(_) => None,
            BlockDevice::Partition(p) => match &p.partition_info {
                Some(i) => Some(i),
                None => None,
            },
        }
    }
}

} // verus!
