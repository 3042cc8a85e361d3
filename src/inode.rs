//! Inode records: the compact (32-byte) and extended (64-byte) on-disk shapes and
//! the uniform view the rest of the decoder reads.
use vstd::prelude::*;
use crate::bytes::{le16, le32, le64, read_u16, read_u32, read_u64};
use crate::xattrs::XAttrSharedEntries;
use crate::{Nid, Off};

verus! {

/// Size of a compact inode record.
pub const COMPACT_INODE_SIZE: usize = 32;

/// Size of an extended inode record.
pub const EXTENDED_INODE_SIZE: usize = 64;

/// Size of the shared-attribute summary that opens an inode's attribute region.
pub const XATTR_SUMMARY_SIZE: u64 = 12;

/// The `i_format` bitfield: bit 0 is the record version, bits 1..3 the data layout.
#[derive(Clone, Copy, Debug)]
pub struct Format(pub u16);

/// Whether a record is compact or extended.
#[derive(Clone, Copy, Debug, PartialEq, Eq, Structural)]
pub enum Version {
    Compat,
    Extended,
}

/// How an inode's data is laid out on disk.
#[derive(Clone, Copy, Debug, PartialEq, Eq, Structural)]
pub enum Layout {
    FlatPlain,
    CompressedFull,
    FlatInline,
    CompressedCompact,
    Chunk,
    Unknown,
}

/// The file type encoded in an inode's mode.
#[derive(Clone, Copy, Debug, PartialEq, Eq, Structural)]
pub enum Type {
    Regular,
    Directory,
    Link,
    Character,
    Block,
    Fifo,
    Socket,
    Unknown,
}

/// The layout named by a layout code.
pub open spec fn layout_of_code(c: int) -> Layout {
    if c == 0 {
        Layout::FlatPlain
    } else if c == 1 {
        Layout::CompressedFull
    } else if c == 2 {
        Layout::FlatInline
    } else if c == 3 {
        Layout::CompressedCompact
    } else if c == 4 {
        Layout::Chunk
    } else {
        Layout::Unknown
    }
}

impl Format {
    pub open spec fn spec_version(self) -> Version {
        if self.0 % 2 == 0 {
            Version::Compat
        } else {
            Version::Extended
        }
    }

    pub open spec fn spec_layout(self) -> Layout {
        layout_of_code((self.0 as int / 2) % 8)
    }

    pub fn version(&self) -> (r: Version)
        ensures
            r == self.spec_version(),
    {
        let v = self.0;
        assert(v & 1 == v % 2) by (bit_vector);
        if self.0 & 1 == 0 {
            Version::Compat
        } else {
            Version::Extended
        }
    }

    pub fn layout(&self) -> (r: Layout)
        ensures
            r == self.spec_layout(),
    {
        let v = self.0;
        assert((v >> 1) & 7 == (v / 2) % 8) by (bit_vector);
        match (self.0 >> 1) & 7 {
            0 => Layout::FlatPlain,
            1 => Layout::CompressedFull,
            2 => Layout::FlatInline,
            3 => Layout::CompressedCompact,
            4 => Layout::Chunk,
            _ => Layout::Unknown,
        }
    }
}

/// A compact inode record.
#[derive(Clone, Copy, Debug)]
pub struct CompactInodeInfo {
    pub i_format: Format,
    pub i_xattr_icount: u16,
    pub i_mode: u16,
    pub i_nlink: u16,
    pub i_size: u32,
    /// The layout-dependent word: a block address, a block count or a chunk format.
    pub i_u: u32,
    pub i_ino: u32,
    pub i_uid: u16,
    pub i_gid: u16,
}

/// An extended inode record.
#[derive(Clone, Copy, Debug)]
pub struct ExtendedInodeInfo {
    pub i_format: Format,
    pub i_xattr_icount: u16,
    pub i_mode: u16,
    pub i_size: u64,
    /// The layout-dependent word: a block address, a block count or a chunk format.
    pub i_u: u32,
    pub i_ino: u32,
    pub i_uid: u32,
    pub i_gid: u32,
    pub i_mtime: u64,
    pub i_mtime_nsec: u32,
    pub i_nlink: u32,
}

/// An inode record of either shape.
#[derive(Clone, Copy, Debug)]
pub enum InodeInfo {
    Extended(ExtendedInodeInfo),
    Compact(CompactInodeInfo),
}

/// The compact record encoded at `p`.
pub open spec fn compact_of(s: Seq<u8>, p: int) -> CompactInodeInfo {
    CompactInodeInfo {
        i_format: Format(le16(s, p) as u16),
        i_xattr_icount: le16(s, p + 2) as u16,
        i_mode: le16(s, p + 4) as u16,
        i_nlink: le16(s, p + 6) as u16,
        i_size: le32(s, p + 8) as u32,
        i_u: le32(s, p + 16) as u32,
        i_ino: le32(s, p + 20) as u32,
        i_uid: le16(s, p + 24) as u16,
        i_gid: le16(s, p + 26) as u16,
    }
}

/// The extended record encoded at `p`.
pub open spec fn extended_of(s: Seq<u8>, p: int) -> ExtendedInodeInfo {
    ExtendedInodeInfo {
        i_format: Format(le16(s, p) as u16),
        i_xattr_icount: le16(s, p + 2) as u16,
        i_mode: le16(s, p + 4) as u16,
        i_size: le64(s, p + 8) as u64,
        i_u: le32(s, p + 16) as u32,
        i_ino: le32(s, p + 20) as u32,
        i_uid: le32(s, p + 24) as u32,
        i_gid: le32(s, p + 28) as u32,
        i_mtime: le64(s, p + 32) as u64,
        i_mtime_nsec: le32(s, p + 40) as u32,
        i_nlink: le32(s, p + 44) as u32,
    }
}

impl CompactInodeInfo {
    /// Decodes the compact record at the start of `s`.
    pub fn from(s: &[u8]) -> (r: CompactInodeInfo)
        requires
            s@.len() >= COMPACT_INODE_SIZE,
        ensures
            r == compact_of(s@, 0),
    {
        CompactInodeInfo {
            i_format: Format(read_u16(s, 0)),
            i_xattr_icount: read_u16(s, 2),
            i_mode: read_u16(s, 4),
            i_nlink: read_u16(s, 6),
            i_size: read_u32(s, 8),
            i_u: read_u32(s, 16),
            i_ino: read_u32(s, 20),
            i_uid: read_u16(s, 24),
            i_gid: read_u16(s, 26),
        }
    }
}

impl ExtendedInodeInfo {
    /// Decodes the extended record at the start of `s`.
    pub fn from(s: &[u8]) -> (r: ExtendedInodeInfo)
        requires
            s@.len() >= EXTENDED_INODE_SIZE,
        ensures
            r == extended_of(s@, 0),
    {
        ExtendedInodeInfo {
            i_format: Format(read_u16(s, 0)),
            i_xattr_icount: read_u16(s, 2),
            i_mode: read_u16(s, 4),
            i_size: read_u64(s, 8),
            i_u: read_u32(s, 16),
            i_ino: read_u32(s, 20),
            i_uid: read_u32(s, 24),
            i_gid: read_u32(s, 28),
            i_mtime: read_u64(s, 32),
            i_mtime_nsec: read_u32(s, 40),
            i_nlink: read_u32(s, 44),
        }
    }
}

pub const CHUNK_BLKBITS_MASK: u16 = 0x1f;
pub const CHUNK_FORMAT_INDEX_BIT: u16 = 0x20;

/// Size of a full chunk-index entry.
pub const CHUNK_INDEX_SIZE: u64 = 8;

/// Size of a raw block-address chunk entry.
pub const CHUNK_BLKADDR_SIZE: u64 = 4;

/// A full chunk-index entry: the device and first block of one chunk.
#[derive(Clone, Copy, Debug)]
pub struct ChunkIndex {
    pub advise: u16,
    pub device_id: u16,
    pub blkaddr: u32,
}

/// The chunk-index entry encoded at `p`.
pub open spec fn chunk_index_of(s: Seq<u8>, p: int) -> ChunkIndex {
    ChunkIndex {
        advise: le16(s, p) as u16,
        device_id: le16(s, p + 2) as u16,
        blkaddr: le32(s, p + 4) as u32,
    }
}

impl ChunkIndex {
    /// Decodes the entry at the start of `s`.
    pub fn from(s: &[u8]) -> (r: ChunkIndex)
        requires
            s@.len() >= CHUNK_INDEX_SIZE,
        ensures
            r == chunk_index_of(s@, 0),
    {
        ChunkIndex { advise: read_u16(s, 0), device_id: read_u16(s, 2), blkaddr: read_u32(s, 4) }
    }
}

/// Chunk format bits: the chunk size in blocks as a power of two, and whether the
/// chunk table holds full index entries.
#[derive(Clone, Copy, Debug)]
pub struct ChunkFormat(pub u16);

impl ChunkFormat {
    pub open spec fn spec_chunkbits(self) -> u16 {
        (self.0 % 32) as u16
    }

    pub open spec fn spec_is_chunkindex(self) -> bool {
        (self.0 / 32) % 2 == 1
    }

    pub fn is_chunkindex(&self) -> (r: bool)
        ensures
            r == self.spec_is_chunkindex(),
    {
        let v = self.0;
        assert(v & 0x20 != 0 <==> (v / 32) % 2 == 1) by (bit_vector);
        self.0 & CHUNK_FORMAT_INDEX_BIT != 0
    }

    pub fn chunkbits(&self) -> (r: u16)
        ensures
            r == self.spec_chunkbits(),
            r < 32,
    {
        let v = self.0;
        assert(v & 0x1f == v % 32) by (bit_vector);
        self.0 & CHUNK_BLKBITS_MASK
    }
}

/// The layout-dependent payload of an inode.
#[derive(Clone, Copy, Debug)]
pub enum Spec {
    /// A chunk-table layout with its format.
    Chunk(ChunkFormat),
    /// A flat layout starting at this block.
    RawBlk(u32),
    /// A compressed layout with this many compressed blocks.
    CompressedBlocks(u32),
    /// A type or layout that carries no mapping here.
    Unknown,
}

/// The payload that word `u` gives under `layout`.
pub open spec fn spec_of(u: u32, layout: Layout) -> Spec {
    match layout {
        Layout::FlatInline | Layout::FlatPlain => Spec::RawBlk(u),
        Layout::CompressedFull | Layout::CompressedCompact => Spec::CompressedBlocks(u),
        Layout::Chunk => Spec::Chunk(ChunkFormat((u % 0x1_0000) as u16)),
        Layout::Unknown => Spec::Unknown,
    }
}

impl Spec {
    /// Interprets the layout-dependent word `u` of an inode under `layout`.
    pub fn from(u: u32, layout: Layout) -> (r: Spec)
        ensures
            r == spec_of(u, layout),
    {
        match layout {
            Layout::FlatInline | Layout::FlatPlain => Spec::RawBlk(u),
            Layout::CompressedFull | Layout::CompressedCompact => Spec::CompressedBlocks(u),
            Layout::Chunk => Spec::Chunk(ChunkFormat((u % 0x1_0000) as u16)),
            Layout::Unknown => Spec::Unknown,
        }
    }
}

pub const S_IFMT: u16 = 0o170000;
pub const S_IFSOCK: u16 = 0o140000;
pub const S_IFLNK: u16 = 0o120000;
pub const S_IFREG: u16 = 0o100000;
pub const S_IFBLK: u16 = 0o60000;
pub const S_IFDIR: u16 = 0o40000;
pub const S_IFCHR: u16 = 0o20000;
pub const S_IFIFO: u16 = 0o10000;

/// The file-type bits of a mode.
pub open spec fn mode_type(mode: u16) -> int {
    (mode / 0o10000) * 0o10000
}

/// The file type that a mode's type bits name.
pub open spec fn type_of_mode(mode: u16) -> Type {
    let t = mode_type(mode);
    if t == S_IFDIR {
        Type::Directory
    } else if t == S_IFREG {
        Type::Regular
    } else if t == S_IFLNK {
        Type::Link
    } else if t == S_IFIFO {
        Type::Fifo
    } else if t == S_IFSOCK {
        Type::Socket
    } else if t == S_IFBLK {
        Type::Block
    } else if t == S_IFCHR {
        Type::Character
    } else {
        Type::Unknown
    }
}

/// The size of an attribute region that holds `icount` 4-byte units past its summary.
pub open spec fn xattr_region_size(icount: u16) -> int {
    if icount == 0 {
        0
    } else {
        XATTR_SUMMARY_SIZE + 4 * (icount - 1)
    }
}

fn mode_type_bits(mode: u16) -> (r: u16)
    ensures
        r == mode_type(mode),
{
    assert(mode & 0o170000 == (mode / 0o10000) * 0o10000) by (bit_vector);
    mode & S_IFMT
}

impl InodeInfo {
    pub open spec fn spec_ino(self) -> u32 {
        match self {
            InodeInfo::Extended(e) => e.i_ino,
            InodeInfo::Compact(c) => c.i_ino,
        }
    }

    pub open spec fn spec_format(self) -> Format {
        match self {
            InodeInfo::Extended(e) => e.i_format,
            InodeInfo::Compact(c) => c.i_format,
        }
    }

    pub open spec fn spec_file_size(self) -> u64 {
        match self {
            InodeInfo::Extended(e) => e.i_size,
            InodeInfo::Compact(c) => c.i_size as u64,
        }
    }

    pub open spec fn spec_inode_size(self) -> u64 {
        match self {
            InodeInfo::Extended(_) => EXTENDED_INODE_SIZE as u64,
            InodeInfo::Compact(_) => COMPACT_INODE_SIZE as u64,
        }
    }

    pub open spec fn spec_mode(self) -> u16 {
        match self {
            InodeInfo::Extended(e) => e.i_mode,
            InodeInfo::Compact(c) => c.i_mode,
        }
    }

    pub open spec fn spec_u(self) -> u32 {
        match self {
            InodeInfo::Extended(e) => e.i_u,
            InodeInfo::Compact(c) => c.i_u,
        }
    }

    pub open spec fn spec_xattr_count(self) -> u16 {
        match self {
            InodeInfo::Extended(e) => e.i_xattr_icount,
            InodeInfo::Compact(c) => c.i_xattr_icount,
        }
    }

    pub open spec fn spec_xattr_size(self) -> int {
        xattr_region_size(self.spec_xattr_count())
    }

    /// Only directories, regular files and symlinks carry a data mapping.
    pub open spec fn spec_spec(self) -> Spec {
        let t = mode_type(self.spec_mode());
        if t == S_IFDIR || t == S_IFREG || t == S_IFLNK {
            spec_of(self.spec_u(), self.spec_format().spec_layout())
        } else {
            Spec::Unknown
        }
    }

    pub fn ino(&self) -> (r: u32)
        ensures
            r == self.spec_ino(),
    {
        match self {
            InodeInfo::Extended(e) => e.i_ino,
            InodeInfo::Compact(c) => c.i_ino,
        }
    }

    pub fn format(&self) -> (r: Format)
        ensures
            r == self.spec_format(),
    {
        match self {
            InodeInfo::Extended(e) => e.i_format,
            InodeInfo::Compact(c) => c.i_format,
        }
    }

    pub fn file_size(&self) -> (r: Off)
        ensures
            r == self.spec_file_size(),
    {
        match self {
            InodeInfo::Extended(e) => e.i_size,
            InodeInfo::Compact(c) => c.i_size as u64,
        }
    }

    pub fn inode_size(&self) -> (r: Off)
        ensures
            r == self.spec_inode_size(),
    {
        match self {
            InodeInfo::Extended(_) => EXTENDED_INODE_SIZE as u64,
            InodeInfo::Compact(_) => COMPACT_INODE_SIZE as u64,
        }
    }

    fn mode(&self) -> (r: u16)
        ensures
            r == self.spec_mode(),
    {
        match self {
            InodeInfo::Extended(e) => e.i_mode,
            InodeInfo::Compact(c) => c.i_mode,
        }
    }

    pub fn spec(&self) -> (r: Spec)
        ensures
            r == self.spec_spec(),
    {
        let t = mode_type_bits(self.mode());
        if t == S_IFDIR || t == S_IFREG || t == S_IFLNK {
            let u = match self {
                InodeInfo::Extended(e) => e.i_u,
                InodeInfo::Compact(c) => c.i_u,
            };
            Spec::from(u, self.format().layout())
        } else {
            Spec::Unknown
        }
    }

    pub fn inode_type(&self) -> (r: Type)
        ensures
            r == type_of_mode(self.spec_mode()),
    {
        let t = mode_type_bits(self.mode());
        if t == S_IFDIR {
            Type::Directory
        } else if t == S_IFREG {
            Type::Regular
        } else if t == S_IFLNK {
            Type::Link
        } else if t == S_IFIFO {
            Type::Fifo
        } else if t == S_IFSOCK {
            Type::Socket
        } else if t == S_IFBLK {
            Type::Block
        } else if t == S_IFCHR {
            Type::Character
        } else {
            Type::Unknown
        }
    }

    /// The size of the attribute region that follows the record.
    pub fn xattr_size(&self) -> (r: Off)
        ensures
            r == self.spec_xattr_size(),
            r <= XATTR_SUMMARY_SIZE + 4 * 0xffff,
    {
        let icount = self.xattr_count();
        if icount == 0 {
            0
        } else {
            XATTR_SUMMARY_SIZE + 4 * (icount as Off - 1)
        }
    }

    pub fn xattr_count(&self) -> (r: u16)
        ensures
            r == self.spec_xattr_count(),
    {
        match self {
            InodeInfo::Extended(e) => e.i_xattr_icount,
            InodeInfo::Compact(c) => c.i_xattr_icount,
        }
    }
}

/// An inode as the decoder holds it: its record, its number and the shared
/// attribute entries it uses.
pub struct Inode {
    pub info: InodeInfo,
    pub nid: Nid,
    pub shared_entries: XAttrSharedEntries,
}

impl Inode {
    pub fn new(info: InodeInfo, nid: Nid, shared_entries: XAttrSharedEntries) -> (r: Inode)
        ensures
            r.info == info,
            r.nid == nid,
            r.shared_entries == shared_entries,
    {
        Inode { info, nid, shared_entries }
    }

    pub fn nid(&self) -> (r: Nid)
        ensures
            r == self.nid,
    {
        self.nid
    }

    pub fn info(&self) -> (r: &InodeInfo)
        ensures
            *r == self.info,
    {
        &self.info
    }

    pub fn xattrs_shared_entries(&self) -> (r: &XAttrSharedEntries)
        ensures
            *r == self.shared_entries,
    {
        &self.shared_entries
    }
}

} // verus!
