//! Directory blocks: an array of 12-byte descriptors followed by the entry names.
use vstd::prelude::*;
use crate::bytes::{le16, le64, read_u16, read_u64};
use crate::errnos::{Errno, PosixResult};
use crate::Nid;

verus! {

/// Size of a directory-entry descriptor.
pub const DIRENT_SIZE: u64 = 12;

/// A directory-entry descriptor: the child's inode number, where its name starts in
/// the block, and its file type.
#[derive(Clone, Copy, Debug, PartialEq, Eq, Structural)]
pub struct DirentDesc {
    pub nid: Nid,
    pub nameoff: u16,
    pub file_type: u8,
}

/// A decoded directory entry.
pub struct Dirent {
    pub desc: DirentDesc,
    pub name: Vec<u8>,
}

/// What a decoded entry holds.
pub open spec fn dirent_view(d: Dirent) -> (DirentDesc, Seq<u8>) {
    (d.desc, d.name@)
}

/// The descriptor at slot `i` of block `b`.
pub open spec fn desc_of(b: Seq<u8>, i: int) -> DirentDesc {
    DirentDesc { nid: le64(b, 12 * i) as u64, nameoff: le16(b, 12 * i + 8) as u16, file_type: b[12 * i + 10] }
}

/// Where the name of entry `i` starts.
pub open spec fn nameoff_at(b: Seq<u8>, i: int) -> int {
    le16(b, 12 * i + 8)
}

/// The number of entries in block `b`: the first name starts right after the last
/// descriptor.
pub open spec fn dir_count(b: Seq<u8>) -> int {
    le16(b, 8) / 12
}

/// The first NUL byte at or after `j`, or the block's end.
pub open spec fn nul_or_end(b: Seq<u8>, j: int) -> int
    decreases b.len() - j,
{
    if j < 0 || j >= b.len() {
        b.len() as int
    } else if b[j] == 0 {
        j
    } else {
        nul_or_end(b, j + 1)
    }
}

/// Where the name of entry `i` ends: at the next entry's name; the last name ends at
/// the padding that fills the rest of the block, or at the block's end.
pub open spec fn name_end(b: Seq<u8>, i: int) -> int {
    if i + 1 < dir_count(b) {
        nameoff_at(b, i + 1)
    } else {
        nul_or_end(b, nameoff_at(b, i))
    }
}

/// The end of the NUL-free run at `j` lies between `j` and the block's end.
pub proof fn lemma_nul_or_end_bounds(b: Seq<u8>, j: int)
    requires
        0 <= j <= b.len(),
    ensures
        j <= nul_or_end(b, j) <= b.len(),
    decreases b.len() - j,
{
    if j < b.len() && b[j] != 0 {
        lemma_nul_or_end_bounds(b, j + 1);
    }
}

/// The first NUL byte at or after `j` in `data`, or its length.
fn find_nul(data: &[u8], j: usize) -> (r: usize)
    requires
        j <= data@.len(),
    ensures
        r == nul_or_end(data@, j as int),
{
    let mut k = j;
    while k < data.len()
        invariant
            j <= k <= data@.len(),
            nul_or_end(data@, j as int) == nul_or_end(data@, k as int),
        decreases data@.len() - k,
    {
        if data[k] == 0 {
            return k;
        }
        k += 1;
    }
    k
}

/// Block `b` holds at least one descriptor, and its names are in order and inside it.
pub open spec fn dir_block_ok(b: Seq<u8>) -> bool {
    &&& b.len() >= DIRENT_SIZE
    &&& dir_count(b) >= 1
    &&& le16(b, 8) <= b.len()
    &&& forall|i: int| 0 <= i < dir_count(b) ==> nameoff_at(b, i) <= #[trigger] name_end(b, i) <= b.len()
}

/// The entries of block `b`, or `None` where the block is malformed.
pub open spec fn dir_block_entries(b: Seq<u8>) -> Option<Seq<(DirentDesc, Seq<u8>)>> {
    if dir_block_ok(b) {
        Some(Seq::new(dir_count(b) as nat, |i: int| (desc_of(b, i), b.subrange(nameoff_at(b, i), name_end(b, i)))))
    } else {
        None
    }
}

impl DirentDesc {
    /// Decodes the descriptor at byte `p` of `s`.
    pub fn from(s: &[u8], p: usize) -> (r: DirentDesc)
        requires
            p + 12 <= s@.len(),
            p % 12 == 0,
        ensures
            r == desc_of(s@, p as int / 12),
    {
        let _len = s.len();
        DirentDesc { nid: read_u64(s, p), nameoff: read_u16(s, p + 8), file_type: s[p + 10] }
    }
}

/// The decoded entries of one directory block.
pub struct DirCollection {
    pub entries: Vec<Dirent>,
}

impl DirCollection {
    /// What the entries hold.
    pub open spec fn view(&self) -> Seq<(DirentDesc, Seq<u8>)> {
        self.entries@.map_values(|d: Dirent| dirent_view(d))
    }

    /// Decodes a directory block; a malformed block is corrupt.
    pub fn new(data: &[u8]) -> (r: PosixResult<DirCollection>)
        ensures
            r matches Ok(c) ==> dir_block_entries(data@) == Some(c.view()),
            r is Err <==> dir_block_entries(data@) is None,
            r is Err ==> r == Err::<DirCollection, Errno>(Errno::EUCLEAN),
    {
        let len = data.len();
        if len < 12 {
            return Err(Errno::EUCLEAN);
        }
        let first = read_u16(data, 8) as usize;
        let n = first / 12;
        if n == 0 || first > len {
            return Err(Errno::EUCLEAN);
        }
        let ghost b = data@;
        let mut i: usize = 0;
        while i < n
            invariant
                b == data@,
                len == b.len(),
                n == dir_count(b),
                1 <= n,
                12 * n <= first <= len,
                first == le16(b, 8),
                i <= n,
                forall|j: int| 0 <= j < i ==> nameoff_at(b, j) <= #[trigger] name_end(b, j) <= b.len(),
            decreases n - i,
        {
            let off = read_u16(data, 12 * i + 8) as usize;
            if off > len {
                assert(!(nameoff_at(b, i as int) <= name_end(b, i as int) <= b.len())) by {
                    if i + 1 >= n {
                        assert(nul_or_end(b, nameoff_at(b, i as int)) == b.len());
                    }
                }
                return Err(Errno::EUCLEAN);
            }
            let end = if i + 1 < n { read_u16(data, 12 * (i + 1) + 8) as usize } else { find_nul(data, off) };
            proof {
                lemma_nul_or_end_bounds(b, off as int);
            }
            if off > end || end > len {
                assert(!(nameoff_at(b, i as int) <= name_end(b, i as int) <= b.len()));
                return Err(Errno::EUCLEAN);
            }
            i += 1;
        }
        let mut entries: Vec<Dirent> = Vec::new();
        let mut i: usize = 0;
        while i < n
            invariant
                b == data@,
                len == b.len(),
                n == dir_count(b),
                12 * n <= len,
                dir_block_ok(b),
                i <= n,
                entries@.len() == i,
                forall|j: int| 0 <= j < i ==> #[trigger] dirent_view(entries@[j]) == (desc_of(b, j), b.subrange(nameoff_at(b, j), name_end(b, j))),
            decreases n - i,
        {
            let desc = DirentDesc::from(data, 12 * i);
            let off = desc.nameoff as usize;
            assert(nameoff_at(b, i as int) <= name_end(b, i as int) <= b.len());
            let end = if i + 1 < n { read_u16(data, 12 * (i + 1) + 8) as usize } else { find_nul(data, off) };
            let name = vstd::slice::slice_to_vec(vstd::slice::slice_subrange(data, off, end));
            entries.push(Dirent { desc, name });
            i += 1;
        }
        let c = DirCollection { entries };
        assert(c.view() =~= Seq::new(n as nat, |i: int| (desc_of(b, i), b.subrange(nameoff_at(b, i), name_end(b, i)))));
        Ok(c)
    }

    /// The number of entries.
    pub fn total(&self) -> (r: usize)
        ensures
            r == self.entries@.len(),
    {
        self.entries.len()
    }
}

} // verus!
