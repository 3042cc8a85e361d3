//! The optional table of extra devices.
use vstd::prelude::*;

verus! {

/// Size of an on-disk device slot.
pub const DEVICE_SLOT_SIZE: u64 = 128;

/// One extra device: its tag and its block counts.
pub struct DeviceSpec {
    pub tags: Vec<u8>,
    pub blocks: u32,
    pub mapped_blocks: u32,
}

/// The extra devices of an image and the mask of device-id bits that address them.
pub struct DeviceInfo {
    pub mask: u16,
    pub specs: Vec<DeviceSpec>,
}

} // verus!
