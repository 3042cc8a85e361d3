//! The result of mapping a logical file offset to its place in the image.
use vstd::prelude::*;
use crate::Off;

verus! {

/// A byte range.
#[derive(Clone, Copy, Debug, PartialEq, Eq, Structural)]
pub struct Segment {
    pub start: Off,
    pub len: Off,
}

/// Where a mapped run lies: in the data area, or packed in the metadata area after
/// the inode record.
#[derive(Clone, Copy, Debug, PartialEq, Eq, Structural)]
pub enum MapType {
    Normal,
    Meta,
}

/// A run of file bytes and where it is stored.
#[derive(Clone, Copy, Debug, PartialEq, Eq, Structural)]
pub struct Mapping {
    pub logical: Segment,
    pub physical: Segment,
    pub algorithm_format: u16,
    pub device_id: u16,
    pub map_type: MapType,
}

} // verus!
