//! The decoder over one mounted image: mapping, inode reading, directories and
//! extended attributes.
use vstd::prelude::*;
use vstd::arithmetic::power2::{lemma2_to64_rest, lemma_pow2_strictly_increases, pow2};
use crate::bytes::{le16, le32, read_u16, read_u32};
use crate::data::{read_bytes, Backend, ContinuousRefIter};
use crate::devices::DeviceInfo;
use crate::errnos::{Errno, PosixResult};
use crate::inode::{
    type_of_mode, Type, chunk_index_of, ChunkFormat, compact_of, extended_of, ChunkIndex, CompactInodeInfo, ExtendedInodeInfo, Format,
    Inode, InodeInfo, Layout, Spec, Version, CHUNK_BLKADDR_SIZE, CHUNK_INDEX_SIZE, COMPACT_INODE_SIZE,
    EXTENDED_INODE_SIZE, XATTR_SUMMARY_SIZE,
};
use crate::map::{MapType, Mapping, Segment};
use crate::devices::DEVICE_SLOT_SIZE;
use crate::dir::{dir_block_entries, dir_block_ok, dir_count, dirent_view, DirCollection, Dirent, DirentDesc, DIRENT_SIZE};
use vstd::arithmetic::div_mod::lemma_fundamental_div_mod;
use crate::operations::{describes_slot, InodeCollection, device_mask, get_device_infos, get_xattr_infixes, infix_views, spec_infixes};
use crate::superblock::{lemma_blksz_range, m32, m64, parse_superblock, superblock_of, SuperBlock, SUPERBLOCK_SIZE};
use crate::EROFS_SUPER_OFFSET;
use crate::xattrs::{summary_of, XAttrInfix, XAttrSharedEntries, XAttrSharedEntrySummary};
use crate::{Nid, Off};

verus! {

/// The number of blocks a file of `size` bytes spans, as `blk_round_up` computes it.
pub open spec fn spec_nblocks(sb: SuperBlock, size: u64) -> int {
    (((size + sb.spec_blksz() - 1) % m64()) / sb.spec_blksz()) % m32()
}

/// The position of inode `nid`'s record, as `iloc` computes it.
pub open spec fn spec_iloc(sb: SuperBlock, nid: Nid) -> int {
    (sb.meta_blkaddr as int * sb.spec_blksz() + (nid as int * 32) % m64()) % m64()
}

/// Where the bytes after inode `nid`'s record and attribute region start.
pub open spec fn spec_tail_start(sb: SuperBlock, info: InodeInfo, nid: Nid) -> int {
    spec_iloc(sb, nid) + info.spec_inode_size() + info.spec_xattr_size()
}

/// The mapping of `offset` in a flat inode: the blocks from its start block hold the
/// file, except that an inline inode keeps its last partial block right after its
/// record and attribute region.
pub open spec fn spec_flatmap(sb: SuperBlock, info: InodeInfo, nid: Nid, offset: u64, inline: bool) -> PosixResult<Mapping> {
    let size = info.spec_file_size() as int;
    let bsz = sb.spec_blksz();
    let nblocks = spec_nblocks(sb, info.spec_file_size());
    if !(info.spec_spec() is RawBlk) {
        Err(Errno::EUCLEAN)
    } else if offset >= size {
        Err(Errno::EUCLEAN)
    } else if inline && nblocks == 0 {
        Err(Errno::EUCLEAN)
    } else {
        let blkaddr = info.spec_spec()->RawBlk_0;
        let lastpos = (if inline { nblocks - 1 } else { nblocks }) * bsz;
        if offset < lastpos {
            let len = (if size < lastpos { size } else { lastpos }) - offset;
            let start = blkaddr * bsz + offset;
            if start > u64::MAX {
                Err(Errno::EUCLEAN)
            } else {
                Ok(Mapping {
                    logical: Segment { start: offset, len: len as u64 },
                    physical: Segment { start: start as u64, len: len as u64 },
                    algorithm_format: 0,
                    device_id: 0,
                    map_type: MapType::Normal,
                })
            }
        } else if inline {
            let len = size - offset;
            let start = spec_tail_start(sb, info, nid) + offset as int % bsz;
            if start > u64::MAX {
                Err(Errno::EUCLEAN)
            } else {
                Ok(Mapping {
                    logical: Segment { start: offset, len: len as u64 },
                    physical: Segment { start: start as u64, len: len as u64 },
                    algorithm_format: 0,
                    device_id: 0,
                    map_type: MapType::Meta,
                })
            }
        } else {
            Err(Errno::EUCLEAN)
        }
    }
}

/// `x` rounded up to a multiple of `unit`.
pub open spec fn round_up(x: int, unit: int) -> int {
    ((x + unit - 1) / unit) * unit
}

/// The position of the chunk-table entry for chunk `nr`: the table follows the record
/// and attribute region, aligned to its entry size.
pub open spec fn spec_chunk_entry_pos(sb: SuperBlock, info: InodeInfo, nid: Nid, nr: int, unit: int) -> int {
    round_up(spec_tail_start(sb, info, nid) + unit * nr, unit)
}

/// The mapping of `offset` in a chunked inode: the chunk's table entry gives its
/// first block, and with full index entries its device; an entry of all ones marks
/// a chunk with no blocks, which the decoder refuses as corrupt.
pub open spec fn spec_chunk_map(sb: SuperBlock, mask: u16, img: Seq<u8>, info: InodeInfo, nid: Nid, offset: u64) -> PosixResult<Mapping> {
    match spec_chunk_entry(sb, info, nid, offset) {
        None => Err(Errno::EUCLEAN),
        Some((pos, unit)) => if pos + unit > u64::MAX {
            Err(Errno::EUCLEAN)
        } else if pos + unit > img.len() {
            Err(Errno::EIO)
        } else {
            spec_chunk_from_entry(sb, mask, info, offset, img.subrange(pos, pos + unit))
        },
    }
}

/// The entry size of a chunk table in `format`.
pub open spec fn chunk_unit(format: ChunkFormat) -> int {
    if format.spec_is_chunkindex() { CHUNK_INDEX_SIZE as int } else { CHUNK_BLKADDR_SIZE as int }
}

/// The position and size of the chunk-table entry that maps `offset`; `None` where
/// the inode is not chunked or `offset` lies past its end.
pub open spec fn spec_chunk_entry(sb: SuperBlock, info: InodeInfo, nid: Nid, offset: u64) -> Option<(int, int)> {
    if !(info.spec_spec() is Chunk) || offset >= info.spec_file_size() {
        None
    } else {
        let format = info.spec_spec()->Chunk_0;
        let csz = pow2((format.spec_chunkbits() + sb.blkszbits) as nat) as int;
        let unit = chunk_unit(format);
        Some((spec_chunk_entry_pos(sb, info, nid, offset as int / csz, unit), unit))
    }
}

/// The mapping of `offset` given the bytes `e` of its chunk-table entry: a full
/// index entry gives the chunk's device and first block, a block-address entry its
/// first block with the run clipped at the file's end; an entry of all ones marks a
/// chunk with no blocks, which is refused as corrupt.
pub open spec fn spec_chunk_from_entry(sb: SuperBlock, mask: u16, info: InodeInfo, offset: u64, e: Seq<u8>) -> PosixResult<Mapping> {
    let size = info.spec_file_size() as int;
    let format = info.spec_spec()->Chunk_0;
    let csz = pow2((format.spec_chunkbits() + sb.blkszbits) as nat) as int;
    let off = offset as int % csz;
    let clen = csz - off;
    if format.spec_is_chunkindex() {
        let ci = chunk_index_of(e, 0);
        if ci.blkaddr == u32::MAX {
            Err(Errno::EUCLEAN)
        } else {
            Ok(Mapping {
                logical: Segment { start: offset, len: clen as u64 },
                physical: Segment { start: (ci.blkaddr * sb.spec_blksz() + off) as u64, len: clen as u64 },
                algorithm_format: 0,
                device_id: ci.device_id & mask,
                map_type: MapType::Normal,
            })
        }
    } else {
        let blkaddr = le32(e, 0);
        let len = if clen < size - offset { clen } else { size - offset };
        if blkaddr == u32::MAX {
            Err(Errno::EUCLEAN)
        } else {
            Ok(Mapping {
                logical: Segment { start: offset, len: len as u64 },
                physical: Segment { start: (blkaddr * sb.spec_blksz() + off) as u64, len: len as u64 },
                algorithm_format: 0,
                device_id: 0,
                map_type: MapType::Normal,
            })
        }
    }
}

/// Walks the content of an inode one block at a time, each block read through the
/// inode's mapping.
pub struct MapIter<'a, B: Backend> {
    pub fs: &'a KernelFileSystem<B>,
    pub inode: &'a Inode,
    /// The logical position of the next block.
    pub pos: u64,
}

impl<'a, B: Backend> MapIter<'a, B> {
    /// The next block, or `None` past the end of the content. A failed read leaves
    /// the iterator where it was.
    pub fn next(&mut self) -> (r: Option<PosixResult<Vec<u8>>>)
        requires
            old(self).fs.wf(),
        ensures
            final(self).fs == old(self).fs,
            final(self).inode == old(self).inode,
            r is None <==> old(self).pos >= old(self).inode.info.spec_file_size(),
            r matches Some(Err(_)) ==> final(self).pos == old(self).pos,
            r matches Some(Ok(v)) ==> {
                &&& old(self).fs.spec_block_at(old(self).inode, old(self).pos) == Ok::<Seq<u8>, Errno>(v@)
                &&& final(self).pos == old(self).pos + old(self).fs.sb.spec_blksz()
            },
            old(self).fs.spec_block_at(old(self).inode, old(self).pos) is Err
                && old(self).pos < old(self).inode.info.spec_file_size() ==> r matches Some(Err(_)),
    {
        if self.pos >= self.inode.info().file_size() {
            return None;
        }
        match self.fs.mapped_block(self.inode, self.pos) {
            Ok(block) => {
                let bsz = self.fs.sb.blksz();
                if self.pos > u64::MAX - bsz {
                    return Some(Err(Errno::EUCLEAN));
                }
                self.pos = self.pos + bsz;
                Some(Ok(block))
            },
            Err(e) => Some(Err(e)),
        }
    }
}

/// A mounted image: its decoder, the inodes decoded so far, and a value the host
/// keeps with it.
pub struct SuperblockInfo<B: Backend, T> {
    pub filesystem: KernelFileSystem<B>,
    pub inodes: InodeCollection,
    pub opaque: T,
}

impl<B: Backend, T> SuperblockInfo<B, T> {
    pub fn new(fs: KernelFileSystem<B>, c: InodeCollection, opaque: T) -> (r: Self)
        ensures
            r.filesystem == fs,
            r.inodes == c,
            r.opaque == opaque,
    {
        SuperblockInfo { filesystem: fs, inodes: c, opaque }
    }
}

/// In a flat-plain inode of exactly `n` full blocks, the first and the last byte both
/// map into the data area, each at the same distance from its logical offset: the
/// runs are laid out contiguously from the inode's start block, so the last byte's
/// run ends where the first byte's run ends.
pub proof fn lemma_flat_plain_contiguous(sb: SuperBlock, info: InodeInfo, nid: Nid, n: int)
    requires
        sb.wf(),
        info.spec_spec() is RawBlk,
        1 <= n < m32(),
        info.spec_file_size() == n * sb.spec_blksz(),
        info.spec_spec()->RawBlk_0 * sb.spec_blksz() + n * sb.spec_blksz() <= u64::MAX,
    ensures
        ({
            let first = spec_flatmap(sb, info, nid, 0, false);
            let last = spec_flatmap(sb, info, nid, (n * sb.spec_blksz() - 1) as u64, false);
            let base = info.spec_spec()->RawBlk_0 * sb.spec_blksz();
            &&& first is Ok && last is Ok
            &&& first->Ok_0.map_type == MapType::Normal && last->Ok_0.map_type == MapType::Normal
            &&& first->Ok_0.physical.start == base + first->Ok_0.logical.start
            &&& last->Ok_0.physical.start == base + last->Ok_0.logical.start
            &&& first->Ok_0.physical.start + first->Ok_0.physical.len
                == last->Ok_0.physical.start + last->Ok_0.physical.len
            &&& first->Ok_0.physical.start + first->Ok_0.physical.len == base + n * sb.spec_blksz()
        }),
{
    let b = sb.spec_blksz();
    lemma_blksz_range(sb.blkszbits);
    assert(n * b <= 0xffff_ffff * 0x1_0000) by (nonlinear_arith)
        requires
            0 <= n < 0x1_0000_0000,
            0 <= b <= 0x1_0000,
    ;
    assert(n * b + b - 1 == n * b + (b - 1));
    vstd::arithmetic::div_mod::lemma_fundamental_div_mod_converse_div(n * b + b - 1, b, n, b - 1);
    assert(spec_nblocks(sb, info.spec_file_size()) == n);
    assert(n * b >= b) by (nonlinear_arith)
        requires
            n >= 1,
            b >= 1,
    ;
}

/// In a flat-inline inode, an offset in the last block maps into the metadata area,
/// and an offset before it maps into the data area, wherever the resulting position
/// fits in 64 bits.
pub proof fn lemma_flat_inline_tail(sb: SuperBlock, info: InodeInfo, nid: Nid, offset: u64)
    requires
        sb.wf(),
        info.spec_spec() is RawBlk,
        offset < info.spec_file_size(),
        info.spec_file_size() + sb.spec_blksz() <= u64::MAX,
        (info.spec_file_size() + sb.spec_blksz() - 1) / sb.spec_blksz() < m32(),
    ensures
        ({
            let nblocks = (info.spec_file_size() + sb.spec_blksz() - 1) / sb.spec_blksz();
            let lastpos = (nblocks - 1) * sb.spec_blksz();
            let r = spec_flatmap(sb, info, nid, offset, true);
            &&& offset >= lastpos && spec_tail_start(sb, info, nid) + offset as int % sb.spec_blksz() <= u64::MAX
                ==> r is Ok && r->Ok_0.map_type == MapType::Meta
            &&& offset < lastpos && info.spec_spec()->RawBlk_0 * sb.spec_blksz() + offset <= u64::MAX
                ==> r is Ok && r->Ok_0.map_type == MapType::Normal
        }),
{
    let b = sb.spec_blksz();
    lemma_blksz_range(sb.blkszbits);
    let s = info.spec_file_size() as int;
    assert((s + b - 1) % m64() == s + b - 1);
    let q = (s + b - 1) / b;
    assert(q % m32() == q);
    assert(q >= 1) by {
        vstd::arithmetic::div_mod::lemma_div_is_ordered(b, s + b - 1, b);
        vstd::arithmetic::div_mod::lemma_div_by_self(b);
    }
}

/// A chunk whose table entry holds the all-ones block address never maps: decoding
/// that entry fails as corrupt, and so does mapping any offset in the chunk.
pub proof fn lemma_chunk_hole_is_corrupt(sb: SuperBlock, mask: u16, img: Seq<u8>, info: InodeInfo, nid: Nid, offset: u64, e: Seq<u8>)
    requires
        info.spec_spec() is Chunk,
        offset < info.spec_file_size(),
        e.len() == chunk_unit(info.spec_spec()->Chunk_0),
        le32(e, e.len() - 4) == u32::MAX,
        spec_chunk_entry(sb, info, nid, offset) matches Some((pos, unit))
            ==> (pos + unit <= img.len() ==> le32(img, pos + unit - 4) == u32::MAX),
    ensures
        spec_chunk_from_entry(sb, mask, info, offset, e) == Err::<Mapping, Errno>(Errno::EUCLEAN),
        spec_chunk_map(sb, mask, img, info, nid, offset) is Err,
{
    if let Some((pos, unit)) = spec_chunk_entry(sb, info, nid, offset) {
        let x = spec_tail_start(sb, info, nid) + unit * (offset as int / pow2((info.spec_spec()->Chunk_0.spec_chunkbits() + sb.blkszbits) as nat) as int);
        vstd::arithmetic::power2::lemma_pow2_pos((info.spec_spec()->Chunk_0.spec_chunkbits() + sb.blkszbits) as nat);
        assert(x >= 0) by (nonlinear_arith)
            requires
                x == spec_tail_start(sb, info, nid) + unit * (offset as int / pow2((info.spec_spec()->Chunk_0.spec_chunkbits() + sb.blkszbits) as nat) as int),
                spec_tail_start(sb, info, nid) >= 0,
                unit >= 0,
                offset as int / pow2((info.spec_spec()->Chunk_0.spec_chunkbits() + sb.blkszbits) as nat) as int >= 0,
        ;
        if unit == 8 {
            assert(round_up(x, 8) >= 0);
        } else {
            assert(round_up(x, 4) >= 0);
        }
        if pos + unit <= u64::MAX && pos + unit <= img.len() {
            let sub = img.subrange(pos, pos + unit);
            assert(sub[unit - 4] == img[pos + unit - 4]);
            assert(sub[unit - 3] == img[pos + unit - 3]);
            assert(sub[unit - 2] == img[pos + unit - 2]);
            assert(sub[unit - 1] == img[pos + unit - 1]);
        }
    }
}

/// A decoded record whose layout or file type is not one the format defines is corrupt.
pub open spec fn spec_check_record(info: InodeInfo) -> PosixResult<InodeInfo> {
    if info.spec_format().spec_layout() == Layout::Unknown || type_of_mode(info.spec_mode()) == Type::Unknown {
        Err(Errno::EUCLEAN)
    } else {
        Ok(info)
    }
}

/// The inode record of `nid`: compact or extended as its version bit says.
pub open spec fn spec_inode_info(sb: SuperBlock, img: Seq<u8>, nid: Nid) -> PosixResult<InodeInfo> {
    let pos = spec_iloc(sb, nid);
    if pos + COMPACT_INODE_SIZE > img.len() {
        Err(Errno::EIO)
    } else if Format(le16(img, pos) as u16).spec_version() == Version::Compat {
        spec_check_record(InodeInfo::Compact(compact_of(img, pos)))
    } else if pos + EXTENDED_INODE_SIZE > img.len() {
        Err(Errno::EIO)
    } else {
        spec_check_record(InodeInfo::Extended(extended_of(img, pos)))
    }
}

/// The name filter and shared-pool indices listed in an inode's attribute region;
/// `None` where the region is cut short or lists more indices than it holds.
pub open spec fn spec_shared_entries(sb: SuperBlock, img: Seq<u8>, nid: Nid, info: InodeInfo) -> Option<(u32, Seq<u32>)> {
    let pos = spec_iloc(sb, nid) + info.spec_inode_size();
    if info.spec_xattr_size() == 0 {
        Some((0u32, Seq::empty()))
    } else if pos + XATTR_SUMMARY_SIZE > img.len() {
        None
    } else {
        let summary = summary_of(img, pos);
        let count = summary.shared_count as int;
        if XATTR_SUMMARY_SIZE + 4 * count > info.spec_xattr_size() {
            None
        } else if pos + XATTR_SUMMARY_SIZE + 4 * count > img.len() {
            None
        } else {
            Some((summary.name_filter, Seq::new(count as nat, |i: int| le32(img, pos + XATTR_SUMMARY_SIZE + 4 * i) as u32)))
        }
    }
}

/// The number of blocks that hold `size` bytes.
pub open spec fn blocks_for(size: int, bsz: int) -> int {
    if bsz > 0 {
        (size + bsz - 1) / bsz
    } else {
        0
    }
}

/// The inode number of the first entry from `i` on that is named `name`.
pub open spec fn first_match(es: Seq<(DirentDesc, Seq<u8>)>, name: Seq<u8>, i: int) -> Option<u64>
    decreases es.len() - i,
{
    if i < 0 || i >= es.len() {
        None
    } else if es[i].1 == name {
        Some(es[i].0.nid)
    } else {
        first_match(es, name, i + 1)
    }
}

/// A block index inside a file lies before the file's end.
pub proof fn lemma_block_in_file(k: int, size: int, bsz: int)
    requires
        0 <= k,
        0 <= size,
        bsz > 0,
        k < blocks_for(size, bsz),
    ensures
        k * bsz < size,
{
    let q = (size + bsz - 1) / bsz;
    lemma_fundamental_div_mod(size + bsz - 1, bsz);
    vstd::arithmetic::div_mod::lemma_mod_pos_bound(size + bsz - 1, bsz);
    assert(q * bsz <= size + bsz - 1) by (nonlinear_arith)
        requires
            size + bsz - 1 == bsz * q + (size + bsz - 1) % bsz,
            0 <= (size + bsz - 1) % bsz,
    ;
    assert(k * bsz + bsz <= q * bsz) by (nonlinear_arith)
        requires
            k + 1 <= q,
            bsz > 0,
    ;
}

/// What a listing holds: each entry's descriptor, name and resume position.
pub open spec fn emitted_view(v: Seq<(Dirent, u64)>) -> Seq<(DirentDesc, Seq<u8>, u64)> {
    v.map_values(|x: (Dirent, u64)| (x.0.desc, x.0.name@, x.1))
}

/// The decoder over one image read through backend `B`.
pub struct KernelFileSystem<B: Backend> {
    pub backend: B,
    pub sb: SuperBlock,
    pub device_info: DeviceInfo,
    pub infixes: Vec<XAttrInfix>,
}

impl<B: Backend> KernelFileSystem<B> {
    /// Mounts the image that `backend` serves: reads its superblock at byte 1024, its
    /// table of long attribute-name infixes and its table of extra devices.
    pub fn try_new(backend: B) -> (r: PosixResult<Self>)
        ensures
            r matches Ok(fs) ==> {
                &&& fs.wf()
                &&& fs.backend == backend
                &&& backend.image().len() >= EROFS_SUPER_OFFSET + SUPERBLOCK_SIZE
                &&& parse_superblock(backend.image().subrange(EROFS_SUPER_OFFSET as int, backend.image().len() as int)) == Ok::<SuperBlock, Errno>(fs.sb)
                &&& spec_infixes(backend.image(), fs.sb.xattr_prefix_start as int, fs.sb.xattr_prefix_count as nat)
                    == Some(infix_views(fs.infixes@))
                &&& forall|i: int| 0 <= i < fs.infixes@.len() ==> (#[trigger] fs.infixes@[i]).wf()
                &&& fs.device_info.mask == device_mask(fs.sb.extra_devices)
                &&& fs.device_info.specs@.len() == fs.sb.extra_devices
                &&& forall|i: int| 0 <= i < fs.sb.extra_devices ==> describes_slot(#[trigger] fs.device_info.specs@[i],
                    backend.image(), fs.sb.devt_slotoff * DEVICE_SLOT_SIZE + DEVICE_SLOT_SIZE * i)
            },
            backend.image().len() >= EROFS_SUPER_OFFSET + SUPERBLOCK_SIZE
                && parse_superblock(backend.image().subrange(EROFS_SUPER_OFFSET as int, backend.image().len() as int)) is Err
                ==> r is Err,
    {
        let raw = read_bytes(&backend, EROFS_SUPER_OFFSET, SUPERBLOCK_SIZE)?;
        let sb = SuperBlock::try_from(raw.as_slice());
        proof {
            let img = backend.image();
            let tail = img.subrange(EROFS_SUPER_OFFSET as int, img.len() as int);
            assert(raw@ =~= tail.subrange(0, SUPERBLOCK_SIZE as int));
            assert(superblock_of(raw@, 0) == superblock_of(tail, 0));
        }
        let sb = sb?;
        let infixes = get_xattr_infixes(&backend, sb.xattr_prefix_start as Off, sb.xattr_prefix_count)?;
        let device_info = get_device_infos(&backend, sb.devt_slotoff as Off * DEVICE_SLOT_SIZE, sb.extra_devices)?;
        Ok(KernelFileSystem { backend, sb, device_info, infixes })
    }

    /// The superblock is one the decoder accepts.
    pub open spec fn wf(&self) -> bool {
        self.sb.wf()
    }

    /// The mapping of `offset` in `inode`, by its layout.
    pub open spec fn spec_map(&self, inode: &Inode, offset: u64) -> PosixResult<Mapping> {
        let layout = inode.info.spec_format().spec_layout();
        if layout == Layout::FlatInline {
            spec_flatmap(self.sb, inode.info, inode.nid, offset, true)
        } else if layout == Layout::FlatPlain {
            spec_flatmap(self.sb, inode.info, inode.nid, offset, false)
        } else if layout == Layout::Chunk {
            spec_chunk_map(self.sb, self.device_info.mask, self.backend.image(), inode.info, inode.nid, offset)
        } else if layout == Layout::Unknown {
            Err(Errno::EUCLEAN)
        } else {
            Err(Errno::EOPNOTSUPP)
        }
    }

    /// An iterator over the blocks of `inode`'s content, from the block that holds
    /// `offset`.
    pub fn mapped_iter<'a>(&'a self, inode: &'a Inode, offset: Off) -> (r: MapIter<'a, B>)
        requires
            self.wf(),
        ensures
            r.fs == self,
            r.inode == inode,
            r.pos == (offset as int / self.sb.spec_blksz()) * self.sb.spec_blksz(),
    {
        let bsz = self.sb.blksz();
        let rem = offset % bsz;
        proof {
            lemma_fundamental_div_mod(offset as int, bsz as int);
        }
        MapIter { fs: self, inode, pos: offset - rem }
    }

    /// An iterator over the image bytes `[offset, offset + len)`, one block at a time.
    pub fn continuous_iter(&self, offset: Off, len: Off) -> (r: ContinuousRefIter<'_, B>)
        ensures
            r.sb == self.sb,
            r.backend == self.backend,
            r.offset == offset,
            r.len == len,
    {
        ContinuousRefIter::new(&self.sb, &self.backend, offset, len)
    }

    pub fn superblock(&self) -> (r: &SuperBlock)
        ensures
            *r == self.sb,
    {
        &self.sb
    }

    pub fn backend(&self) -> (r: &B)
        ensures
            *r == self.backend,
    {
        &self.backend
    }

    pub fn device_info(&self) -> (r: &DeviceInfo)
        ensures
            *r == self.device_info,
    {
        &self.device_info
    }

    pub fn xattr_infixes(&self) -> (r: &Vec<XAttrInfix>)
        ensures
            *r == self.infixes,
    {
        &self.infixes
    }

    /// Maps `offset` of a flat inode.
    pub fn flatmap(&self, inode: &Inode, offset: Off, inline: bool) -> (r: PosixResult<Mapping>)
        requires
            self.wf(),
        ensures
            r == spec_flatmap(self.sb, inode.info, inode.nid, offset, inline),
    {
        let sb = &self.sb;
        let info = inode.info();
        let size = info.file_size();
        let blkaddr = match info.spec() {
            Spec::RawBlk(blkaddr) => blkaddr,
            _ => return Err(Errno::EUCLEAN),
        };
        if offset >= size {
            return Err(Errno::EUCLEAN);
        }
        let nblocks = sb.blk_round_up(size);
        if inline && nblocks == 0 {
            return Err(Errno::EUCLEAN);
        }
        let lastblk = if inline { nblocks - 1 } else { nblocks };
        let lastpos = sb.blkpos(lastblk);
        if offset < lastpos {
            let len = (if size < lastpos { size } else { lastpos }) - offset;
            match sb.blkpos(blkaddr).checked_add(offset) {
                Some(start) => Ok(Mapping {
                    logical: Segment { start: offset, len },
                    physical: Segment { start, len },
                    algorithm_format: 0,
                    device_id: 0,
                    map_type: MapType::Normal,
                }),
                None => Err(Errno::EUCLEAN),
            }
        } else if inline {
            let len = size - offset;
            let accessor = sb.blk_access(offset);
            let start = (sb.iloc(inode.nid()) as u128) + (info.inode_size() as u128)
                + (info.xattr_size() as u128) + (accessor.off as u128);
            if start > u64::MAX as u128 {
                Err(Errno::EUCLEAN)
            } else {
                Ok(Mapping {
                    logical: Segment { start: offset, len },
                    physical: Segment { start: start as u64, len },
                    algorithm_format: 0,
                    device_id: 0,
                    map_type: MapType::Meta,
                })
            }
        } else {
            Err(Errno::EUCLEAN)
        }
    }

    /// Maps `offset` of a chunked inode, reading its chunk-table entry. A layout
    /// that is not chunked, an offset past the end, or an entry position past 64 bits
    /// fails as corrupt before any read; what follows the read is
    /// [`Self::chunk_map_entry`].
    pub fn chunk_map(&self, inode: &Inode, offset: Off) -> (r: PosixResult<Mapping>)
        requires
            self.wf(),
        ensures
            r is Ok ==> r == spec_chunk_map(self.sb, self.device_info.mask, self.backend.image(), inode.info, inode.nid, offset),
            spec_chunk_map(self.sb, self.device_info.mask, self.backend.image(), inode.info, inode.nid, offset) is Err ==> r is Err,
            spec_chunk_entry(self.sb, inode.info, inode.nid, offset) is None ==> r == Err::<Mapping, Errno>(Errno::EUCLEAN),
            spec_chunk_entry(self.sb, inode.info, inode.nid, offset) matches Some((pos, unit)) && pos + unit > u64::MAX
                ==> r == Err::<Mapping, Errno>(Errno::EUCLEAN),
    {
        let sb = &self.sb;
        let info = inode.info();
        let size = info.file_size();
        let format = match info.spec() {
            Spec::Chunk(format) => format,
            _ => return Err(Errno::EUCLEAN),
        };
        if offset >= size {
            return Err(Errno::EUCLEAN);
        }
        let accessor = sb.chunk_access(format, offset);
        let index = format.is_chunkindex();
        let unit: u64 = if index { CHUNK_INDEX_SIZE } else { CHUNK_BLKADDR_SIZE };
        let nr = accessor.nr;
        assert((unit as u128) * (nr as u128) <= 8 * 0xffff_ffff_ffff_ffffu128) by (nonlinear_arith)
            requires
                unit <= 8,
        ;
        let step: u128 = (unit as u128) * (nr as u128);
        let tail = (sb.iloc(inode.nid()) as u128) + (info.inode_size() as u128)
            + (info.xattr_size() as u128) + step;
        let pos = ((tail + unit as u128 - 1) / unit as u128) * unit as u128;
        if pos + unit as u128 > u64::MAX as u128 {
            return Err(Errno::EUCLEAN);
        }
        let entry = read_bytes(&self.backend, pos as u64, unit as usize)?;
        self.chunk_map_entry(inode, offset, entry.as_slice())
    }

    /// Maps `offset` of a chunked inode from the bytes of its chunk-table entry.
    pub fn chunk_map_entry(&self, inode: &Inode, offset: Off, entry: &[u8]) -> (r: PosixResult<Mapping>)
        requires
            self.wf(),
            inode.info.spec_spec() is Chunk,
            offset < inode.info.spec_file_size(),
            entry@.len() == chunk_unit(inode.info.spec_spec()->Chunk_0),
        ensures
            r == spec_chunk_from_entry(self.sb, self.device_info.mask, inode.info, offset, entry@),
    {
        let sb = &self.sb;
        let info = inode.info();
        let size = info.file_size();
        let format = match info.spec() {
            Spec::Chunk(format) => format,
            _ => return Err(Errno::EUCLEAN),
        };
        let accessor = sb.chunk_access(format, offset);
        proof {
            lemma_blksz_range(sb.blkszbits);
            let bits = (format.spec_chunkbits() + sb.blkszbits) as nat;
            lemma2_to64_rest();
            vstd::arithmetic::power2::lemma_pow2_pos(bits);
            assert(bits <= 47);
            vstd::arithmetic::div_mod::lemma_mod_pos_bound(offset as int, pow2(bits) as int);
            if bits < 47 {
                lemma_pow2_strictly_increases(bits, 47);
            }
            assert(accessor.off < 0x8000_0000_0000);
        }
        if format.is_chunkindex() {
            let ci = ChunkIndex::from(entry);
            if ci.blkaddr == u32::MAX {
                return Err(Errno::EUCLEAN);
            }
            let start = sb.blkpos(ci.blkaddr) + accessor.off;
            Ok(Mapping {
                logical: Segment { start: offset, len: accessor.len },
                physical: Segment { start, len: accessor.len },
                algorithm_format: 0,
                device_id: ci.device_id & self.device_info.mask,
                map_type: MapType::Normal,
            })
        } else {
            let blkaddr = read_u32(entry, 0);
            let len = if accessor.len < size - offset { accessor.len } else { size - offset };
            if blkaddr == u32::MAX {
                return Err(Errno::EUCLEAN);
            }
            let start = sb.blkpos(blkaddr) + accessor.off;
            Ok(Mapping {
                logical: Segment { start: offset, len },
                physical: Segment { start, len },
                algorithm_format: 0,
                device_id: 0,
                map_type: MapType::Normal,
            })
        }
    }

    /// The bytes of the block of `inode` that starts at logical position `pos`: at most
    /// a block, never past the file's end.
    pub open spec fn spec_block_at(&self, inode: &Inode, pos: u64) -> PosixResult<Seq<u8>> {
        match self.spec_map(inode, pos) {
            Ok(m) => {
                let size = inode.info.spec_file_size() as int;
                let bsz = self.sb.spec_blksz();
                let rest = size - pos;
                let a = if bsz < rest { bsz } else { rest };
                let len = if a < m.logical.len { a } else { m.logical.len as int };
                let img = self.backend.image();
                if m.physical.start + len > img.len() {
                    Err(Errno::EIO)
                } else {
                    Ok(img.subrange(m.physical.start as int, m.physical.start + len))
                }
            },
            Err(e) => Err(e),
        }
    }

    /// The entries of the directory block of `inode` at block index `k`.
    pub open spec fn spec_block_entries(&self, inode: &Inode, k: int) -> PosixResult<Seq<(DirentDesc, Seq<u8>)>> {
        match self.spec_block_at(inode, (k * self.sb.spec_blksz()) as u64) {
            Ok(b) => match dir_block_entries(b) {
                Some(es) => Ok(es),
                None => Err(Errno::EUCLEAN),
            },
            Err(e) => Err(e),
        }
    }

    /// The number of blocks of `inode`'s content.
    pub open spec fn spec_nblocks_of(&self, inode: &Inode) -> int {
        blocks_for(inode.info.spec_file_size() as int, self.sb.spec_blksz())
    }

    /// The result of looking `name` up in the blocks of `inode` from block `k` on.
    pub open spec fn spec_find_from(&self, inode: &Inode, name: Seq<u8>, k: int) -> PosixResult<Option<u64>>
        decreases self.spec_nblocks_of(inode) - k,
    {
        if k < 0 || k >= self.spec_nblocks_of(inode) {
            Ok(None)
        } else {
            match self.spec_block_entries(inode, k) {
                Ok(es) => match first_match(es, name, 0) {
                    Some(nid) => Ok(Some(nid)),
                    None => self.spec_find_from(inode, name, k + 1),
                },
                Err(e) => Err(e),
            }
        }
    }

    /// The entries that a listing emits from block `k` on, skipping the first `skip`
    /// entries of block `k`; each comes with the position just after it.
    pub open spec fn spec_listing(&self, inode: &Inode, k: int, skip: int) -> PosixResult<Seq<(DirentDesc, Seq<u8>, u64)>>
        decreases self.spec_nblocks_of(inode) - k,
    {
        if k < 0 || k >= self.spec_nblocks_of(inode) {
            Ok(Seq::empty())
        } else {
            match self.spec_block_entries(inode, k) {
                Ok(es) => {
                    let here = block_here(es, k * self.sb.spec_blksz(), skip);
                    match self.spec_listing(inode, k + 1, 0) {
                        Ok(rest) => Ok(here + rest),
                        Err(e) => Err(e),
                    }
                },
                Err(e) => Err(e),
            }
        }
    }

    /// What `fill_dentries(inode, offset)` emits: the entries from the one at
    /// `offset` on, or corruption where `offset` lies past the end of the directory.
    pub open spec fn spec_fill(&self, inode: &Inode, offset: u64) -> PosixResult<Seq<(DirentDesc, Seq<u8>, u64)>> {
        let bsz = self.sb.spec_blksz();
        if offset > inode.info.spec_file_size() {
            Err(Errno::EUCLEAN)
        } else {
            self.spec_listing(inode, offset as int / bsz, ((offset as int % bsz) + DIRENT_SIZE - 1) / DIRENT_SIZE as int)
        }
    }

    /// The positions in a listing from block `k` on lie past the block's start, within
    /// the file, and strictly increase.
    pub proof fn lemma_listing_positions(&self, inode: &Inode, k: int, skip: int)
        requires
            self.wf(),
            0 <= k,
        ensures
            self.spec_listing(inode, k, skip) matches Ok(l) ==> {
                &&& forall|i: int| 0 <= i < l.len() ==> k * self.sb.spec_blksz() < #[trigger] l[i].2 <= inode.info.spec_file_size()
                &&& forall|i: int, j: int| 0 <= i < j < l.len() ==> #[trigger] l[i].2 < #[trigger] l[j].2
            },
        decreases self.spec_nblocks_of(inode) - k,
    {
        let bsz = self.sb.spec_blksz();
        let size = inode.info.spec_file_size() as int;
        lemma_blksz_range(self.sb.blkszbits);
        if k < self.spec_nblocks_of(inode) {
            self.lemma_listing_positions(inode, k + 1, 0);
            lemma_block_in_file(k, size, bsz);
            if let Ok(es) = self.spec_block_entries(inode, k) {
                let b = self.spec_block_at(inode, (k * bsz) as u64)->Ok_0;
                assert(12 * (le16(b, 8) / 12) <= le16(b, 8));
                assert(b.len() <= bsz && k * bsz + b.len() <= size);
                assert((k + 1) * bsz == k * bsz + bsz) by (nonlinear_arith);
            }
        }
    }

    /// Resuming a listing from the position that came with its first entry lists
    /// exactly the remaining entries, in order; and the positions of a listing
    /// strictly increase.
    pub proof fn lemma_fill_resume(&self, inode: &Inode)
        requires
            self.wf(),
            self.spec_fill(inode, 0) is Ok,
            self.spec_fill(inode, 0)->Ok_0.len() >= 1,
        ensures
            ({
                let l = self.spec_fill(inode, 0)->Ok_0;
                &&& self.spec_fill(inode, l[0].2) == Ok::<Seq<(DirentDesc, Seq<u8>, u64)>, Errno>(l.drop_first())
                &&& forall|i: int, j: int| 0 <= i < j < l.len() ==> #[trigger] l[i].2 < #[trigger] l[j].2
            }),
    {
        let bsz = self.sb.spec_blksz();
        let size = inode.info.spec_file_size() as int;
        lemma_blksz_range(self.sb.blkszbits);
        assert(0int / bsz == 0 && (0int % bsz + DIRENT_SIZE - 1) / DIRENT_SIZE as int == 0);
        self.lemma_listing_positions(inode, 0, 0);
        let l = self.spec_listing(inode, 0, 0)->Ok_0;
        let es = self.spec_block_entries(inode, 0)->Ok_0;
        let b = self.spec_block_at(inode, 0)->Ok_0;
        assert(self.spec_nblocks_of(inode) >= 1);
        assert(es.len() >= 1);
        let rest = self.spec_listing(inode, 1, 0)->Ok_0;
        let here0 = Seq::new(es.len(), |i: int| (es[i].0, es[i].1, (0 * bsz + DIRENT_SIZE * (0 + i + 1)) as u64));
        let here1 = Seq::new((es.len() - 1) as nat, |i: int| (es[1 + i].0, es[1 + i].1, (0 * bsz + DIRENT_SIZE * (1 + i + 1)) as u64));
        assert(l == here0 + rest);
        assert(l[0].2 == 12);
        assert(b.len() >= 12 && b.len() <= size);
        vstd::arithmetic::div_mod::lemma_basic_div(12, bsz);
        vstd::arithmetic::div_mod::lemma_small_mod(12, bsz as nat);
        assert(12int / bsz == 0 && (12int % bsz + DIRENT_SIZE - 1) / DIRENT_SIZE as int == 1);
        assert(self.spec_listing(inode, 0, 1) == Ok::<Seq<(DirentDesc, Seq<u8>, u64)>, Errno>(here1 + rest));
        assert(here1 + rest =~= l.drop_first());
    }

    /// Reads the block of `inode` that starts at logical position `pos`, through the
    /// inode's mapping.
    pub fn mapped_block(&self, inode: &Inode, pos: Off) -> (r: PosixResult<Vec<u8>>)
        requires
            self.wf(),
        ensures
            r matches Ok(v) ==> self.spec_block_at(inode, pos) == Ok::<Seq<u8>, Errno>(v@),
            self.spec_block_at(inode, pos) is Err ==> r is Err,
    {
        let m = self.map(inode, pos)?;
        let size = inode.info().file_size();
        let bsz = self.sb.blksz();
        let rest = size - pos;
        let a = if bsz < rest { bsz } else { rest };
        let len = if a < m.logical.len { a } else { m.logical.len };
        read_bytes(&self.backend, m.physical.start, len as usize)
    }

    /// Looks `name` up in directory `inode` by a scan of every entry: the first entry
    /// with exactly that name gives its inode number; no such entry gives `None`. An
    /// empty directory needs no read; each block read is searched by
    /// [`find_in_block`].
    pub fn find_nid(&self, inode: &Inode, name: &[u8]) -> (r: PosixResult<Option<Nid>>)
        requires
            self.wf(),
        ensures
            r is Ok ==> r == self.spec_find_from(inode, name@, 0),
            self.spec_find_from(inode, name@, 0) is Err ==> r is Err,
            self.spec_nblocks_of(inode) == 0 ==> r == Ok::<Option<Nid>, Errno>(None),
    {
        let size = inode.info().file_size();
        let bsz = self.sb.blksz();
        let nblocks = count_blocks(size, bsz);
        let mut k: u64 = 0;
        while k < nblocks
            invariant
                self.wf(),
                bsz == self.sb.spec_blksz(),
                size == inode.info.spec_file_size(),
                nblocks == self.spec_nblocks_of(inode),
                k <= nblocks,
                self.spec_find_from(inode, name@, 0) == self.spec_find_from(inode, name@, k as int),
            decreases nblocks - k,
        {
            proof {
                lemma_block_in_file(k as int, size as int, bsz as int);
            }
            let block = self.mapped_block(inode, k * bsz)?;
            match find_in_block(block.as_slice(), name)? {
                Some(nid) => return Ok(Some(nid)),
                None => {},
            }
            k += 1;
        }
        Ok(None)
    }

    /// Lists directory `inode` from byte position `offset` of its content: the block
    /// that holds `offset` from the first descriptor at or after it, then every later
    /// block. Each entry comes with the position just after its descriptor, from
    /// which a later call resumes. An offset past the end is corrupt; one at the end
    /// lists nothing without a read; each block read is listed by [`list_block`].
    pub fn fill_dentries(&self, inode: &Inode, offset: Off) -> (r: PosixResult<Vec<(Dirent, Off)>>)
        requires
            self.wf(),
        ensures
            r matches Ok(v) ==> self.spec_fill(inode, offset) == Ok::<Seq<(DirentDesc, Seq<u8>, u64)>, Errno>(emitted_view(v@)),
            self.spec_fill(inode, offset) is Err ==> r is Err,
            offset > inode.info.spec_file_size() ==> r == Err::<Vec<(Dirent, Off)>, Errno>(Errno::EUCLEAN),
            offset <= inode.info.spec_file_size() && offset as int / self.sb.spec_blksz() >= self.spec_nblocks_of(inode)
                ==> (r matches Ok(v) && v@.len() == 0),
    {
        let size = inode.info().file_size();
        if offset > size {
            return Err(Errno::EUCLEAN);
        }
        let bsz = self.sb.blksz();
        let nblocks = count_blocks(size, bsz);
        let mut k: u64 = offset / bsz;
        let mut skip: u64 = (offset % bsz + DIRENT_SIZE - 1) / DIRENT_SIZE;
        let mut out: Vec<(Dirent, Off)> = Vec::new();
        let ghost k0 = k;
        while k < nblocks
            invariant
                self.wf(),
                bsz == self.sb.spec_blksz(),
                512 <= bsz <= 0x1_0000,
                size == inode.info.spec_file_size(),
                nblocks == self.spec_nblocks_of(inode),
                skip <= bsz,
                k0 <= k,
                offset <= size,
                k0 == offset as int / bsz as int,
                k0 >= nblocks ==> out@.len() == 0,
                self.spec_fill(inode, offset) == match self.spec_listing(inode, k as int, skip as int) {
                    Ok(rest) => Ok(emitted_view(out@) + rest),
                    Err(e) => Err::<Seq<(DirentDesc, Seq<u8>, u64)>, Errno>(e),
                },
            decreases nblocks - k,
        {
            proof {
                lemma_block_in_file(k as int, size as int, bsz as int);
            }
            let pos = k * bsz;
            let block = self.mapped_block(inode, pos)?;
            let ghost prefix = emitted_view(out@);
            list_block(block.as_slice(), pos, skip, &mut out)?;
            proof {
                let es = dir_block_entries(block@)->Some_0;
                assert(self.spec_block_entries(inode, k as int) == Ok::<Seq<(DirentDesc, Seq<u8>)>, Errno>(es));
                let here = block_here(es, k * bsz, skip as int);
                if let Ok(rest) = self.spec_listing(inode, k + 1, 0) {
                    assert(prefix + (here + rest) =~= emitted_view(out@) + rest);
                }
            }
            k += 1;
            skip = 0;
        }
        assert(emitted_view(out@) + Seq::<(DirentDesc, Seq<u8>, u64)>::empty() =~= emitted_view(out@));
        Ok(out)
    }

    /// Reads the inode record of `nid`.
    pub fn read_inode_info(&self, nid: Nid) -> (r: PosixResult<InodeInfo>)
        requires
            self.wf(),
        ensures
            r is Ok ==> r == spec_inode_info(self.sb, self.backend.image(), nid),
            spec_inode_info(self.sb, self.backend.image(), nid) is Err ==> r is Err,
    {
        let pos = self.sb.iloc(nid);
        let head = read_bytes(&self.backend, pos, COMPACT_INODE_SIZE)?;
        let format = Format(read_u16(head.as_slice(), 0));
        match format.version() {
            Version::Compat => check_record(InodeInfo::Compact(CompactInodeInfo::from(head.as_slice()))),
            Version::Extended => {
                let full = read_bytes(&self.backend, pos, EXTENDED_INODE_SIZE)?;
                check_record(InodeInfo::Extended(ExtendedInodeInfo::from(full.as_slice())))
            },
        }
    }

    /// Reads the name filter and the shared-pool indices that inode `nid` lists. An
    /// inode without an attribute region has none, with no read; the summary is
    /// checked by [`check_shared_summary`] and the indices decoded by
    /// [`decode_shared_indexes`].
    pub fn read_inode_xattrs_shared_entries(&self, nid: Nid, info: &InodeInfo) -> (r: PosixResult<XAttrSharedEntries>)
        requires
            self.wf(),
        ensures
            r matches Ok(e) ==> spec_shared_entries(self.sb, self.backend.image(), nid, *info) == Some((e.name_filter, e.shared_indexes@)),
            spec_shared_entries(self.sb, self.backend.image(), nid, *info) is None ==> r is Err,
            info.spec_xattr_size() == 0 ==> (r matches Ok(e) && e.name_filter == 0 && e.shared_indexes@.len() == 0),
            info.spec_xattr_size() != 0 && spec_iloc(self.sb, nid) + info.spec_inode_size() + XATTR_SUMMARY_SIZE > u64::MAX
                ==> r == Err::<XAttrSharedEntries, Errno>(Errno::EUCLEAN),
    {
        if info.xattr_size() == 0 {
            return Ok(XAttrSharedEntries { name_filter: 0, shared_indexes: Vec::new() });
        }
        let pos = self.sb.iloc(nid) as u128 + info.inode_size() as u128;
        if pos + XATTR_SUMMARY_SIZE as u128 > u64::MAX as u128 {
            return Err(Errno::EUCLEAN);
        }
        let head = read_bytes(&self.backend, pos as u64, XATTR_SUMMARY_SIZE as usize)?;
        let summary = check_shared_summary(info, head.as_slice())?;
        let count = summary.shared_count as u64;
        let start = pos + XATTR_SUMMARY_SIZE as u128;
        if start + 4 * count as u128 > u64::MAX as u128 {
            return Err(Errno::EUCLEAN);
        }
        let raw = read_bytes(&self.backend, start as u64, (4 * count) as usize)?;
        let entries = decode_shared_indexes(&summary, raw.as_slice());
        let ghost img = self.backend.image();
        let ghost expected = Seq::new(count as nat, |j: int| le32(img, start + 4 * j) as u32);
        assert forall|j: int| 0 <= j < count implies entries.shared_indexes@[j] == expected[j] by {
            assert(raw@[4 * j] == img[start + 4 * j]);
            assert(raw@[4 * j + 1] == img[start + 4 * j + 1]);
            assert(raw@[4 * j + 2] == img[start + 4 * j + 2]);
            assert(raw@[4 * j + 3] == img[start + 4 * j + 3]);
        }
        assert(entries.shared_indexes@ =~= expected);
        Ok(entries)
    }

    /// Maps `offset` of `inode` to the run of image bytes that holds it.
    pub fn map(&self, inode: &Inode, offset: Off) -> (r: PosixResult<Mapping>)
        requires
            self.wf(),
        ensures
            r is Ok ==> r == self.spec_map(inode, offset),
            self.spec_map(inode, offset) is Err ==> r is Err,
            !(inode.info.spec_format().spec_layout() is Chunk) ==> r == self.spec_map(inode, offset),
            inode.info.spec_format().spec_layout() is Chunk && spec_chunk_entry(self.sb, inode.info, inode.nid, offset) is None
                ==> r == Err::<Mapping, Errno>(Errno::EUCLEAN),
            inode.info.spec_format().spec_layout() is Chunk ==> (
                spec_chunk_entry(self.sb, inode.info, inode.nid, offset) matches Some((pos, unit))
                ==> (pos + unit > u64::MAX ==> r == Err::<Mapping, Errno>(Errno::EUCLEAN))),
    {
        match inode.info().format().layout() {
            Layout::FlatInline => self.flatmap(inode, offset, true),
            Layout::FlatPlain => self.flatmap(inode, offset, false),
            Layout::Chunk => self.chunk_map(inode, offset),
            Layout::Unknown => Err(Errno::EUCLEAN),
            _ => Err(Errno::EOPNOTSUPP),
        }
    }
}

/// The entries of a block whose first byte sits at content position `base`, from
/// entry `skip` on, each with the position just after its descriptor.
pub open spec fn block_here(es: Seq<(DirentDesc, Seq<u8>)>, base: int, skip: int) -> Seq<(DirentDesc, Seq<u8>, u64)> {
    if 0 <= skip <= es.len() {
        Seq::new((es.len() - skip) as nat, |i: int| (es[skip + i].0, es[skip + i].1, (base + DIRENT_SIZE * (skip + i + 1)) as u64))
    } else {
        Seq::empty()
    }
}

/// Looks `name` up in one directory block: the first entry with exactly that name,
/// or `None`; a malformed block is corrupt.
pub fn find_in_block(block: &[u8], name: &[u8]) -> (r: PosixResult<Option<Nid>>)
    ensures
        r == match dir_block_entries(block@) {
            Some(es) => Ok(first_match(es, name@, 0)),
            None => Err::<Option<Nid>, Errno>(Errno::EUCLEAN),
        },
{
    let coll = DirCollection::new(block)?;
    let ghost es = coll.view();
    let mut i: usize = 0;
    while i < coll.entries.len()
        invariant
            es == coll.view(),
            dir_block_entries(block@) == Some(es),
            i <= es.len(),
            first_match(es, name@, 0) == first_match(es, name@, i as int),
        decreases es.len() - i,
    {
        assert(es[i as int] == dirent_view(coll.entries@[i as int]));
        if bytes_eq(coll.entries[i].name.as_slice(), name) {
            return Ok(Some(coll.entries[i].desc.nid));
        }
        i += 1;
    }
    Ok(None)
}

/// Appends to `out` the entries of the directory block `block`, whose first byte
/// sits at content position `base`, from entry `skip` on, each with the position
/// just after its descriptor; a malformed block is corrupt and appends nothing.
pub fn list_block(block: &[u8], base: u64, skip: u64, out: &mut Vec<(Dirent, Off)>) -> (r: PosixResult<()>)
    requires
        base + block@.len() <= u64::MAX,
    ensures
        r is Ok <==> dir_block_entries(block@) is Some,
        r is Err ==> r == Err::<(), Errno>(Errno::EUCLEAN) && final(out)@ == old(out)@,
        r is Ok ==> emitted_view(final(out)@) == emitted_view(old(out)@) + block_here(dir_block_entries(block@)->Some_0, base as int, skip as int),
{
    let coll = DirCollection::new(block)?;
    let ghost es = coll.view();
    let ghost prefix = emitted_view(out@);
    let n = coll.entries.len();
    proof {
        assert(dir_block_ok(block@));
        assert(es.len() == dir_count(block@));
        assert(12 * (le16(block@, 8) / 12) <= le16(block@, 8));
    }
    if skip <= n as u64 {
        let mut i: usize = skip as usize;
        while i < n
            invariant
                es == coll.view(),
                n == es.len(),
                skip <= i <= n,
                12 * n <= block@.len(),
                base + block@.len() <= u64::MAX,
                emitted_view(out@) == prefix + Seq::new((i - skip) as nat, |j: int| (es[skip + j].0, es[skip + j].1,
                    (base + DIRENT_SIZE * (skip + j + 1)) as u64)),
            decreases n - i,
        {
            let e = &coll.entries[i];
            let name = vstd::slice::slice_to_vec(e.name.as_slice());
            assert(es[i as int] == dirent_view(coll.entries@[i as int]));
            let ghost before = emitted_view(out@);
            out.push((Dirent { desc: e.desc, name }, base + DIRENT_SIZE * (i as u64 + 1)));
            assert(emitted_view(out@) =~= before.push((es[i as int].0, es[i as int].1,
                (base + DIRENT_SIZE * (i + 1)) as u64)));
            i += 1;
            assert(emitted_view(out@) =~= prefix + Seq::new((i - skip) as nat, |j: int| (es[skip + j].0, es[skip + j].1,
                (base + DIRENT_SIZE * (skip + j + 1)) as u64)));
        }
    }
    assert(emitted_view(out@) =~= prefix + block_here(es, base as int, skip as int));
    Ok(())
}

/// Decodes the attribute summary at the start of `head`; one that lists more shared
/// indices than the inode's attribute region holds is corrupt.
pub fn check_shared_summary(info: &InodeInfo, head: &[u8]) -> (r: PosixResult<XAttrSharedEntrySummary>)
    requires
        head@.len() >= XATTR_SUMMARY_SIZE,
    ensures
        r == if XATTR_SUMMARY_SIZE + 4 * summary_of(head@, 0).shared_count > info.spec_xattr_size() {
            Err::<XAttrSharedEntrySummary, Errno>(Errno::EUCLEAN)
        } else {
            Ok(summary_of(head@, 0))
        },
{
    let summary = XAttrSharedEntrySummary::from(head);
    if XATTR_SUMMARY_SIZE + 4 * summary.shared_count as u64 > info.xattr_size() {
        return Err(Errno::EUCLEAN);
    }
    Ok(summary)
}

/// The shared-pool indices stored as little-endian words in `raw`, with the name
/// filter of `summary`.
pub fn decode_shared_indexes(summary: &XAttrSharedEntrySummary, raw: &[u8]) -> (r: XAttrSharedEntries)
    requires
        raw@.len() == 4 * summary.shared_count,
    ensures
        r.name_filter == summary.name_filter,
        r.shared_indexes@ == Seq::new(summary.shared_count as nat, |j: int| le32(raw@, 4 * j) as u32),
{
    let count = summary.shared_count as usize;
    let mut indexes: Vec<u32> = Vec::new();
    let mut i: usize = 0;
    while i < count
        invariant
            raw@.len() == 4 * count,
            count <= 255,
            i <= count,
            indexes@.len() == i,
            forall|j: int| 0 <= j < i ==> indexes@[j] == le32(raw@, 4 * j),
        decreases count - i,
    {
        indexes.push(read_u32(raw, 4 * i));
        i += 1;
    }
    assert(indexes@ =~= Seq::new(summary.shared_count as nat, |j: int| le32(raw@, 4 * j) as u32));
    XAttrSharedEntries { name_filter: summary.name_filter, shared_indexes: indexes }
}

/// Refuses a decoded record whose layout or file type the format does not define.
pub fn check_record(info: InodeInfo) -> (r: PosixResult<InodeInfo>)
    ensures
        r == spec_check_record(info),
{
    if info.format().layout() == Layout::Unknown || info.inode_type() == Type::Unknown {
        Err(Errno::EUCLEAN)
    } else {
        Ok(info)
    }
}

/// The number of `bsz`-byte blocks that hold `size` bytes.
pub fn count_blocks(size: u64, bsz: u64) -> (r: u64)
    requires
        bsz >= 2,
    ensures
        r == blocks_for(size as int, bsz as int),
{
    let q = size / bsz;
    let rm = size % bsz;
    proof {
        lemma_fundamental_div_mod(size as int, bsz as int);
        vstd::arithmetic::div_mod::lemma_mod_pos_bound(size as int, bsz as int);
        if size > 0 {
            vstd::arithmetic::div_mod::lemma_div_decreases(size as int, bsz as int);
        }
    }
    let r = if rm == 0 { q } else { q + 1 };
    proof {
        let x = size + bsz - 1;
        let rr = x - r * bsz;
        assert(x == r * bsz + rr);
        assert(0 <= rr < bsz) by (nonlinear_arith)
            requires
                size == bsz * q + rm,
                0 <= rm < bsz,
                r == (if rm == 0 { q as int } else { q + 1 }),
                rr == size + bsz - 1 - r * bsz,
        ;
        vstd::arithmetic::div_mod::lemma_fundamental_div_mod_converse_div(x as int, bsz as int, r as int, rr as int);
    }
    r
}

/// Whether two byte strings are equal.
pub fn bytes_eq(a: &[u8], b: &[u8]) -> (r: bool)
    ensures
        r == (a@ == b@),
{
    if a.len() != b.len() {
        return false;
    }
    let mut i: usize = 0;
    while i < a.len()
        invariant
            a@.len() == b@.len(),
            i <= a@.len(),
            forall|j: int| 0 <= j < i ==> a@[j] == b@[j],
        decreases a@.len() - i,
    {
        if a[i] != b[i] {
            return false;
        }
        i += 1;
    }
    assert(a@ =~= b@);
    true
}

} // verus!
