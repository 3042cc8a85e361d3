//! Mount-time tables and the inode-level operations built on the decoder.
use vstd::prelude::*;
use vstd::arithmetic::power2::{lemma2_to64, lemma_pow2_strictly_increases, lemma_pow2_unfold, pow2};
use crate::bytes::{le16, le32, read_u16, read_u32};
use crate::data::{read_bytes, Backend};
use crate::devices::{DeviceInfo, DeviceSpec, DEVICE_SLOT_SIZE};
use crate::errnos::{Errno, PosixResult};
use crate::filesystem::round_up;
use crate::xattrs::XAttrInfix;
use crate::filesystem::{spec_inode_info, KernelFileSystem};
use crate::inode::{Inode, InodeInfo};
use crate::{Nid, Off};

verus! {

/// The byte contents of a list of infixes.
pub open spec fn infix_views(v: Seq<XAttrInfix>) -> Seq<Seq<u8>> {
    v.map_values(|x: XAttrInfix| x.0@)
}

/// The `count` infix records from `pos`: each is a 16-bit length and that many bytes,
/// padded to 4 bytes. `None` where a record is empty or runs past the image.
pub open spec fn spec_infixes(img: Seq<u8>, pos: int, count: nat) -> Option<Seq<Seq<u8>>>
    decreases count,
{
    if count == 0 {
        Some(Seq::empty())
    } else if pos + 2 > img.len() {
        None
    } else {
        let size = le16(img, pos);
        let next = round_up(pos + 2 + size, 4);
        if size == 0 || pos + 2 + size > img.len() || next > u64::MAX {
            None
        } else {
            match spec_infixes(img, next, (count - 1) as nat) {
                Some(rest) => Some(seq![img.subrange(pos + 2, pos + 2 + size)] + rest),
                None => None,
            }
        }
    }
}

/// Decodes the 2-byte head of the infix record at `pos`: the record's length and
/// where the next record starts. An empty record, or a next position past 64 bits,
/// is corrupt.
pub fn decode_infix_head(pos: u64, head: &[u8]) -> (r: PosixResult<(u16, u64)>)
    requires
        head@.len() >= 2,
    ensures
        r == if le16(head@, 0) == 0 || round_up(pos + 2 + le16(head@, 0), 4) > u64::MAX {
            Err::<(u16, u64), Errno>(Errno::EUCLEAN)
        } else {
            Ok((le16(head@, 0) as u16, round_up(pos + 2 + le16(head@, 0), 4) as u64))
        },
{
    let size = read_u16(head, 0);
    if size == 0 {
        return Err(Errno::EUCLEAN);
    }
    let end = pos as u128 + 2 + size as u128;
    let next = ((end + 3) / 4) * 4;
    if next > u64::MAX as u128 {
        return Err(Errno::EUCLEAN);
    }
    Ok((size, next as u64))
}

/// Reads the `count` infix records that start at `offset`.
pub fn get_xattr_infixes<B: Backend>(backend: &B, offset: Off, count: u8) -> (r: PosixResult<Vec<XAttrInfix>>)
    ensures
        r matches Ok(v) ==> {
            &&& spec_infixes(backend.image(), offset as int, count as nat) == Some(infix_views(v@))
            &&& forall|i: int| 0 <= i < v@.len() ==> (#[trigger] v@[i]).wf()
        },
        spec_infixes(backend.image(), offset as int, count as nat) is None ==> r is Err,
        count == 0 ==> (r matches Ok(v) && v@.len() == 0),
{
    let ghost img = backend.image();
    let mut result: Vec<XAttrInfix> = Vec::new();
    let mut pos: u64 = offset;
    let mut i: u8 = 0;
    while i < count
        invariant
            i <= count,
            forall|j: int| 0 <= j < result@.len() ==> (#[trigger] result@[j]).wf(),
            img == backend.image(),
            spec_infixes(img, offset as int, count as nat) == match spec_infixes(img, pos as int, (count - i) as nat) {
                Some(rest) => Some(infix_views(result@) + rest),
                None => None::<Seq<Seq<u8>>>,
            },
        decreases count - i,
    {
        let head = read_bytes(backend, pos, 2)?;
        let (size, next) = decode_infix_head(pos, head.as_slice())?;
        let body = read_bytes(backend, pos + 2, size as usize)?;
        let ghost before = result@;
        proof {
            let rest = spec_infixes(img, next as int, (count - i - 1) as nat);
            assert(head@[0] == img[pos as int] && head@[1] == img[pos + 1]);
            if let Some(r) = rest {
                assert(infix_views(before.push(XAttrInfix(body))) + r =~= infix_views(before) + (seq![body@] + r));
            }
        }
        result.push(XAttrInfix(body));
        pos = next as u64;
        i = i + 1;
    }
    assert(infix_views(result@) + Seq::<Seq<u8>>::empty() =~= infix_views(result@));
    Ok(result)
}

/// The smallest power of two that is at least `n`, searching upward from `m`.
pub open spec fn pow2_at_least(n: int, m: int) -> int
    decreases n - m,
{
    if m < 1 || m >= n {
        m
    } else if 2 * m >= n {
        2 * m
    } else {
        pow2_at_least(n, 2 * m)
    }
}

/// The device-id mask for `count` extra devices: one less than the smallest power of
/// two that exceeds `count`.
pub open spec fn device_mask(count: u16) -> int {
    pow2_at_least(count + 1, 1) - 1
}

/// What the device slot at `pos` says of its device.
pub open spec fn describes_slot(d: DeviceSpec, img: Seq<u8>, pos: int) -> bool {
    &&& d.tags@ == img.subrange(pos, pos + 64)
    &&& d.blocks == le32(img, pos + 64)
    &&& d.mapped_blocks == le32(img, pos + 68)
}

/// Reads the `count` device slots at `offset` and the device-id mask they need.
pub fn get_device_infos<B: Backend>(backend: &B, offset: Off, count: u16) -> (r: PosixResult<DeviceInfo>)
    ensures
        r matches Ok(d) ==> {
            &&& d.mask == device_mask(count)
            &&& d.specs@.len() == count
            &&& forall|i: int| 0 <= i < count ==> describes_slot(#[trigger] d.specs@[i], backend.image(), offset + DEVICE_SLOT_SIZE * i)
        },
        count == 0 ==> (r matches Ok(d) && d.mask == 0 && d.specs@.len() == 0),
{
    let n: u32 = count as u32 + 1;
    let mut m: u32 = 1;
    let ghost mut k: nat = 0;
    proof {
        lemma2_to64();
    }
    while m < n
        invariant
            1 <= n <= 0x1_0000,
            m == pow2(k),
            k <= 16,
            1 <= m,
            pow2_at_least(n as int, m as int) == pow2_at_least(n as int, 1),
        decreases 16 - k,
    {
        proof {
            lemma2_to64();
            if k >= 16 {
                if k > 16 {
                    lemma_pow2_strictly_increases(16, k);
                }
            }
            lemma_pow2_unfold(k + 1);
        }
        m = m * 2;
        proof {
            k = k + 1;
        }
    }
    let mask = (m - 1) as u16;
    let mut specs: Vec<DeviceSpec> = Vec::new();
    let mut i: u16 = 0;
    while i < count
        invariant
            i <= count,
            specs@.len() == i,
            forall|j: int| 0 <= j < i ==> describes_slot(#[trigger] specs@[j], backend.image(), offset + DEVICE_SLOT_SIZE * j),
        decreases count - i,
    {
        assert(DEVICE_SLOT_SIZE as u128 * i as u128 <= 128 * 0xffff) by (nonlinear_arith)
            requires
                i <= 0xffff,
        ;
        let pos = offset as u128 + DEVICE_SLOT_SIZE as u128 * i as u128;
        if pos + DEVICE_SLOT_SIZE as u128 > u64::MAX as u128 {
            return Err(Errno::EUCLEAN);
        }
        let slot = read_bytes(backend, pos as u64, DEVICE_SLOT_SIZE as usize)?;
        let tags = vstd::slice::slice_to_vec(vstd::slice::slice_subrange(slot.as_slice(), 0, 64));
        let spec = DeviceSpec { tags, blocks: read_u32(slot.as_slice(), 64), mapped_blocks: read_u32(slot.as_slice(), 68) };
        proof {
            assert(spec.tags@ =~= backend.image().subrange(pos as int, pos + 64));
        }
        specs.push(spec);
        i = i + 1;
    }
    Ok(DeviceInfo { mask, specs })
}

/// The inodes decoded so far, at most one per inode number.
pub struct InodeCollection {
    pub inodes: Vec<Inode>,
}

impl InodeCollection {
    /// No inode number appears twice.
    pub open spec fn wf(&self) -> bool {
        forall|i: int, j: int| 0 <= i < j < self.inodes@.len() ==> (#[trigger] self.inodes@[i]).nid != (#[trigger] self.inodes@[j]).nid
    }

    pub fn new() -> (r: InodeCollection)
        ensures
            r.wf(),
            r.inodes@.len() == 0,
    {
        InodeCollection { inodes: Vec::new() }
    }

    /// The inode `nid`: the one decoded before, or else a new one read from `fs`
    /// and kept.
    pub fn iget<'a, B: Backend>(&'a mut self, nid: Nid, fs: &KernelFileSystem<B>) -> (r: PosixResult<&'a Inode>)
        requires
            old(self).wf(),
            fs.wf(),
        ensures
            final(self).wf(),
            r matches Ok(inode) ==> {
                &&& inode.nid == nid
                &&& exists|j: int| 0 <= j < final(self).inodes@.len() && final(self).inodes@[j] == *inode
            },
            r matches Ok(inode) ==> ((forall|j: int| 0 <= j < old(self).inodes@.len() ==> (#[trigger] old(self).inodes@[j]).nid != nid)
                ==> spec_inode_info(fs.sb, fs.backend.image(), nid) == Ok::<InodeInfo, Errno>(inode.info)),
            forall|j: int| 0 <= j < old(self).inodes@.len() ==> final(self).inodes@[j] == #[trigger] old(self).inodes@[j],
            (exists|j: int| 0 <= j < old(self).inodes@.len() && (#[trigger] old(self).inodes@[j]).nid == nid) ==> r is Ok,
    {
        let mut i: usize = 0;
        while i < self.inodes.len()
            invariant
                self.wf(),
                self.inodes@ == old(self).inodes@,
                i <= self.inodes@.len(),
                forall|j: int| 0 <= j < i ==> (#[trigger] self.inodes@[j]).nid != nid,
            decreases self.inodes@.len() - i,
        {
            if self.inodes[i].nid == nid {
                return Ok(&self.inodes[i]);
            }
            i += 1;
        }
        let info = fs.read_inode_info(nid)?;
        let shared = fs.read_inode_xattrs_shared_entries(nid, &info)?;
        self.inodes.push(Inode::new(info, nid, shared));
        let last = self.inodes.len() - 1;
        Ok(&self.inodes[last])
    }
}

/// Reads inode `nid` through `collection`.
pub fn read_inode<'a, B: Backend>(filesystem: &KernelFileSystem<B>, collection: &'a mut InodeCollection, nid: Nid) -> (r: PosixResult<&'a Inode>)
    requires
        old(collection).wf(),
        filesystem.wf(),
    ensures
        final(collection).wf(),
        r matches Ok(inode) ==> inode.nid == nid,
{
    collection.iget(nid, filesystem)
}

/// Looks `name` up in directory `inode` and reads the inode it names; a name that is
/// not there fails with `ENOENT`.
pub fn dir_lookup<'a, B: Backend>(filesystem: &KernelFileSystem<B>, collection: &'a mut InodeCollection, inode: &Inode, name: &[u8]) -> (r: PosixResult<&'a Inode>)
    requires
        old(collection).wf(),
        filesystem.wf(),
    ensures
        final(collection).wf(),
        r matches Ok(found) ==> filesystem.spec_find_from(inode, name@, 0) == Ok::<Option<u64>, Errno>(Some(found.nid)),
        filesystem.spec_find_from(inode, name@, 0) matches Ok(None) ==> r is Err,
        filesystem.spec_find_from(inode, name@, 0) is Err ==> r is Err,
        filesystem.spec_nblocks_of(inode) == 0 ==> r == Err::<&Inode, Errno>(Errno::ENOENT),
{
    match filesystem.find_nid(inode, name)? {
        Some(nid) => read_inode(filesystem, collection, nid),
        None => Err(Errno::ENOENT),
    }
}

} // verus!
