//! The superblock and the address arithmetic parameterised by its block size.
use vstd::prelude::*;
use vstd::arithmetic::power2::{lemma2_to64, lemma_pow2_strictly_increases, pow2};
use vstd::arithmetic::div_mod::{lemma_fundamental_div_mod, lemma_mod_multiples_basic};
use vstd::bits::{
    lemma_u64_pow2_no_overflow, lemma_u64_shl_is_mul, lemma_u64_shr_is_div,
    lemma_u64_low_bits_mask_is_mod, low_bits_mask,
};
use crate::bytes::{le16, le32, le64, read_u16, read_u32, read_u64};
use crate::errnos::{Errno, PosixResult};
use crate::inode::ChunkFormat;
use crate::{Blk, Nid, Off};

verus! {

/// Size of the on-disk superblock record.
pub const SUPERBLOCK_SIZE: usize = 128;

/// The smallest block size the decoder accepts, as a power of two.
pub const MIN_BLKSZBITS: u8 = 9;

/// The largest block size the decoder accepts, as a power of two.
pub const MAX_BLKSZBITS: u8 = 16;

/// 2^64, the modulus of 64-bit wraparound.
pub open spec fn m64() -> int {
    0x1_0000_0000_0000_0000
}

/// 2^32, the modulus of 32-bit truncation.
pub open spec fn m32() -> int {
    0x1_0000_0000
}

/// `address` rounded down to a multiple of `2^bits`.
pub open spec fn align_down(address: int, bits: nat) -> int {
    (address / pow2(bits) as int) * pow2(bits) as int
}

/// An accepted block size lies between 512 bytes and 64 KiB.
pub proof fn lemma_blksz_range(bits: u8)
    requires
        sane_blkszbits(bits),
    ensures
        512 <= pow2(bits as nat) <= 0x1_0000,
{
    lemma2_to64();
    if bits < 16 {
        lemma_pow2_strictly_increases(bits as nat, 16);
    }
    if bits > 9 {
        lemma_pow2_strictly_increases(9, bits as nat);
    }
}

/// The decomposition of an address at a power-of-two boundary.
#[derive(Clone, Copy, Debug)]
pub struct Accessor {
    /// The address rounded down to the boundary.
    pub base: Off,
    /// The offset of the address past `base`.
    pub off: Off,
    /// The bytes left from the address to the next boundary.
    pub len: Off,
    /// The index of the unit that holds the address.
    pub nr: Off,
}

impl Accessor {
    /// What `new(address, bits)` holds.
    pub open spec fn describes(self, address: int, bits: nat) -> bool {
        &&& self.base == align_down(address, bits)
        &&& self.off == address % pow2(bits) as int
        &&& self.len == pow2(bits) - address % pow2(bits) as int
        &&& self.nr == address / pow2(bits) as int
    }

    pub fn new(address: Off, bits: Off) -> (r: Accessor)
        requires
            bits < 64,
        ensures
            r.describes(address as int, bits as nat),
    {
        proof {
            lemma_u64_pow2_no_overflow(bits as nat);
            lemma_u64_shl_is_mul(1, bits);
            lemma_u64_shr_is_div(address, bits);
        }
        let sz: u64 = 1u64 << bits;
        let mask: u64 = sz - 1;
        proof {
            assert(mask == low_bits_mask(bits as nat) as u64);
            lemma_u64_low_bits_mask_is_mod(address, bits as nat);
            lemma_fundamental_div_mod(address as int, pow2(bits as nat) as int);
        }
        let off: u64 = address & mask;
        let nr: u64 = address >> bits;
        Accessor { base: address - off, off, len: sz - off, nr }
    }
}

/// An accessor's base and offset add back up to its address, and the base is aligned.
pub proof fn lemma_accessor_decomposes(address: u64, bits: u64, a: Accessor)
    requires
        bits < 64,
        a.describes(address as int, bits as nat),
    ensures
        a.base + a.off == address,
        a.base as int % pow2(bits as nat) as int == 0,
{
    lemma_u64_pow2_no_overflow(bits as nat);
    lemma_fundamental_div_mod(address as int, pow2(bits as nat) as int);
    lemma_mod_multiples_basic(address as int / pow2(bits as nat) as int, pow2(bits as nat) as int);
}

/// The on-disk superblock, with every field that the format defines.
#[derive(Clone, Copy, Debug)]
pub struct SuperBlock {
    pub magic: u32,
    pub checksum: u32,
    pub feature_compat: u32,
    /// The block size is `2^blkszbits` bytes.
    pub blkszbits: u8,
    pub sb_extslots: u8,
    pub root_nid: u16,
    pub inos: u64,
    pub build_time: u64,
    pub build_time_nsec: u32,
    pub blocks: u32,
    /// First block of the metadata area, where inode records live.
    pub meta_blkaddr: u32,
    /// First block of the shared extended-attribute pool.
    pub xattr_blkaddr: u32,
    /// The volume uuid, as two little-endian halves.
    pub uuid_lo: u64,
    pub uuid_hi: u64,
    /// The volume name, as two little-endian halves.
    pub volume_name_lo: u64,
    pub volume_name_hi: u64,
    pub feature_incompat: u32,
    pub compression: u16,
    pub extra_devices: u16,
    pub devt_slotoff: u16,
    pub dirblkbits: u8,
    pub xattr_prefix_count: u8,
    pub xattr_prefix_start: u32,
    pub packed_nid: u64,
    pub xattr_filter_reserved: u8,
}

/// The superblock encoded by the 128 bytes at `p`.
pub open spec fn superblock_of(s: Seq<u8>, p: int) -> SuperBlock {
    SuperBlock {
        magic: le32(s, p) as u32,
        checksum: le32(s, p + 4) as u32,
        feature_compat: le32(s, p + 8) as u32,
        blkszbits: s[p + 12],
        sb_extslots: s[p + 13],
        root_nid: le16(s, p + 14) as u16,
        inos: le64(s, p + 16) as u64,
        build_time: le64(s, p + 24) as u64,
        build_time_nsec: le32(s, p + 32) as u32,
        blocks: le32(s, p + 36) as u32,
        meta_blkaddr: le32(s, p + 40) as u32,
        xattr_blkaddr: le32(s, p + 44) as u32,
        uuid_lo: le64(s, p + 48) as u64,
        uuid_hi: le64(s, p + 56) as u64,
        volume_name_lo: le64(s, p + 64) as u64,
        volume_name_hi: le64(s, p + 72) as u64,
        feature_incompat: le32(s, p + 80) as u32,
        compression: le16(s, p + 84) as u16,
        extra_devices: le16(s, p + 86) as u16,
        devt_slotoff: le16(s, p + 88) as u16,
        dirblkbits: s[p + 90],
        xattr_prefix_count: s[p + 91],
        xattr_prefix_start: le32(s, p + 92) as u32,
        packed_nid: le64(s, p + 96) as u64,
        xattr_filter_reserved: s[p + 104],
    }
}

/// Whether a block size is one the decoder accepts.
pub open spec fn sane_blkszbits(bits: u8) -> bool {
    MIN_BLKSZBITS <= bits <= MAX_BLKSZBITS
}

/// The result of parsing a superblock from the start of `s`.
pub open spec fn parse_superblock(s: Seq<u8>) -> PosixResult<SuperBlock> {
    if s.len() < SUPERBLOCK_SIZE {
        Err(Errno::EUCLEAN)
    } else if !sane_blkszbits(superblock_of(s, 0).blkszbits) {
        Err(Errno::EUCLEAN)
    } else {
        Ok(superblock_of(s, 0))
    }
}

impl SuperBlock {
    /// The superblock's block size is one the decoder accepts.
    pub open spec fn wf(self) -> bool {
        sane_blkszbits(self.blkszbits)
    }

    /// The block size in bytes.
    pub open spec fn spec_blksz(self) -> int {
        pow2(self.blkszbits as nat) as int
    }

    /// Parses the first 128 bytes of `value`; a shorter slice or a degenerate block
    /// size is refused.
    pub fn try_from(value: &[u8]) -> (r: PosixResult<SuperBlock>)
        ensures
            r == parse_superblock(value@),
    {
        if value.len() < SUPERBLOCK_SIZE {
            return Err(Errno::EUCLEAN);
        }
        let sb = SuperBlock::from(value);
        if sb.blkszbits < MIN_BLKSZBITS || sb.blkszbits > MAX_BLKSZBITS {
            return Err(Errno::EUCLEAN);
        }
        Ok(sb)
    }

    /// Decodes the fields of the superblock record at the start of `value`.
    pub fn from(value: &[u8]) -> (r: SuperBlock)
        requires
            value@.len() >= SUPERBLOCK_SIZE,
        ensures
            r == superblock_of(value@, 0),
    {
        SuperBlock {
            magic: read_u32(value, 0),
            checksum: read_u32(value, 4),
            feature_compat: read_u32(value, 8),
            blkszbits: value[12],
            sb_extslots: value[13],
            root_nid: read_u16(value, 14),
            inos: read_u64(value, 16),
            build_time: read_u64(value, 24),
            build_time_nsec: read_u32(value, 32),
            blocks: read_u32(value, 36),
            meta_blkaddr: read_u32(value, 40),
            xattr_blkaddr: read_u32(value, 44),
            uuid_lo: read_u64(value, 48),
            uuid_hi: read_u64(value, 56),
            volume_name_lo: read_u64(value, 64),
            volume_name_hi: read_u64(value, 72),
            feature_incompat: read_u32(value, 80),
            compression: read_u16(value, 84),
            extra_devices: read_u16(value, 86),
            devt_slotoff: read_u16(value, 88),
            dirblkbits: value[90],
            xattr_prefix_count: value[91],
            xattr_prefix_start: read_u32(value, 92),
            packed_nid: read_u64(value, 96),
            xattr_filter_reserved: value[104],
        }
    }

    pub fn blk_access(&self, address: Off) -> (r: Accessor)
        requires
            self.wf(),
        ensures
            r.describes(address as int, self.blkszbits as nat),
    {
        Accessor::new(address, self.blkszbits as Off)
    }

    /// The block number of a byte position, truncated to 32 bits.
    pub fn blknr(&self, pos: Off) -> (r: Blk)
        requires
            self.wf(),
        ensures
            r == (pos as int / self.spec_blksz()) % m32(),
    {
        proof {
            lemma_u64_shr_is_div(pos, self.blkszbits as u64);
        }
        let q: u64 = pos >> (self.blkszbits as u64);
        (q % 0x1_0000_0000u64) as Blk
    }

    /// The byte position of a block.
    pub fn blkpos(&self, blk: Blk) -> (r: Off)
        requires
            self.wf(),
        ensures
            r == blk as int * self.spec_blksz(),
            r <= 0xffff_ffff_0000,
    {
        proof {
            lemma_u64_pow2_no_overflow(self.blkszbits as nat);
            lemma_blksz_range(self.blkszbits);
            assert(blk * pow2(self.blkszbits as nat) <= 0xffff_ffff * 0x1_0000) by (nonlinear_arith)
                requires
                    blk <= 0xffff_ffff,
                    pow2(self.blkszbits as nat) <= 0x1_0000,
            ;
            lemma_u64_shl_is_mul(blk as u64, self.blkszbits as u64);
        }
        (blk as Off) << (self.blkszbits as Off)
    }

    /// The block size in bytes.
    pub fn blksz(&self) -> (r: Off)
        requires
            self.wf(),
        ensures
            r == self.spec_blksz(),
            512 <= r <= 0x1_0000,
    {
        proof {
            lemma_u64_pow2_no_overflow(self.blkszbits as nat);
            lemma_u64_shl_is_mul(1, self.blkszbits as u64);
            lemma_blksz_range(self.blkszbits);
        }
        1u64 << (self.blkszbits as Off)
    }

    /// The number of blocks needed to hold `addr` bytes, with the 64-bit sum wrapping
    /// and the result truncated to 32 bits.
    pub fn blk_round_up(&self, addr: Off) -> (r: Blk)
        requires
            self.wf(),
        ensures
            r == (((addr as int + self.spec_blksz() - 1) % m64()) / self.spec_blksz()) % m32(),
    {
        let sz = self.blksz();
        let sum: u64 = addr.wrapping_add(sz - 1);
        proof {
            lemma_u64_shr_is_div(sum, self.blkszbits as u64);
        }
        let q: u64 = sum >> (self.blkszbits as u64);
        (q % 0x1_0000_0000u64) as Blk
    }

    /// The byte position of inode `nid`'s record: 32-byte slots from the start of the
    /// metadata area, with 64-bit wraparound.
    pub fn iloc(&self, nid: Nid) -> (r: Off)
        requires
            self.wf(),
        ensures
            r == (self.meta_blkaddr as int * self.spec_blksz() + (nid as int * 32) % m64()) % m64(),
    {
        self.blkpos(self.meta_blkaddr).wrapping_add(nid.wrapping_mul(32))
    }

    /// The decomposition of `address` at the chunk size of `format`.
    pub fn chunk_access(&self, format: ChunkFormat, address: Off) -> (r: Accessor)
        requires
            self.wf(),
        ensures
            r.describes(address as int, (format.spec_chunkbits() + self.blkszbits) as nat),
    {
        let chunkbits: u16 = format.chunkbits() + self.blkszbits as u16;
        Accessor::new(address, chunkbits as Off)
    }
}

/// Decoding a superblock and then re-deriving the position of the block that holds
/// an aligned position gives the position back, wherever the block number fits in
/// 32 bits.
pub proof fn lemma_blkpos_blknr_round_trip(bytes: Seq<u8>, x: u64)
    requires
        parse_superblock(bytes) is Ok,
        x as int % parse_superblock(bytes)->Ok_0.spec_blksz() == 0,
        x as int / parse_superblock(bytes)->Ok_0.spec_blksz() < m32(),
    ensures
        ({
            let sb = parse_superblock(bytes)->Ok_0;
            ((x as int / sb.spec_blksz()) % m32()) * sb.spec_blksz() == x
        }),
{
    let sb = parse_superblock(bytes)->Ok_0;
    let d = sb.spec_blksz();
    lemma_u64_pow2_no_overflow(sb.blkszbits as nat);
    lemma_fundamental_div_mod(x as int, d);
    assert((x as int / d) % m32() == x as int / d);
    assert((x as int / d) * d == d * (x as int / d)) by (nonlinear_arith);
}

} // verus!
