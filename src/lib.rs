//! A read-only decoder for the EROFS on-disk image format.
//!
//! The library reads an image through a [`data::Backend`], parses its superblock,
//! inode records, directory blocks, extent tables and extended attributes, and
//! answers lookup, listing, mapping and attribute queries. Every decoding step is
//! stated over a mathematical model of the image bytes and proved against it.
use vstd::prelude::*;

pub mod bytes;
pub mod data;
pub mod devices;
pub mod dir;
pub mod errnos;
pub mod filesystem;
pub mod map;
pub mod inode;
pub mod operations;
pub mod superblock;
pub mod xattr_ops;
pub mod xattrs;

verus! {

/// A block index: EROFS block addresses are 32-bit.
pub type Blk = u32;

/// A byte offset into the image or into a file's content.
pub type Off = u64;

/// An inode number: the inode's slot in the metadata area, in 32-byte units.
pub type Nid = u64;

/// Byte offset of the on-disk superblock.
pub const EROFS_SUPER_OFFSET: Off = 1024;

} // verus!
