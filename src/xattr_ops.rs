//! Extended-attribute queries: lookup of one attribute and listing of all names.
//!
//! An inode's attributes come from two places, read in this order: the entries packed
//! inline after its shared-index list, and the shared-pool entries that the list
//! names. An entry is a 4-byte header, the name suffix and the value, padded to 4
//! bytes.
use vstd::prelude::*;
use crate::data::{read_bytes, Backend};
use crate::errnos::{Errno, PosixResult};
use crate::filesystem::{bytes_eq, round_up, spec_iloc, KernelFileSystem};
use crate::superblock::lemma_blksz_range;
use crate::inode::Inode;
use crate::operations::infix_views;
use crate::xattrs::{
    entry_header_of, prefix_of, xattr_prefix, XAttrEntryHeader, XAttrInfix, XAttrValue,
    XATTR_ENTRY_HEADER_SIZE,
};
use crate::inode::XATTR_SUMMARY_SIZE;

verus! {

/// The built-in prefix index and the rest of the name of an entry, with a long name
/// index resolved through the infix table; `None` where the index names no infix.
pub open spec fn entry_key(infixes: Seq<Seq<u8>>, h: XAttrEntryHeader, suffix: Seq<u8>) -> Option<(u8, Seq<u8>)> {
    if h.name_index.spec_is_long() {
        let slot = h.name_index.spec_base() as int;
        if slot >= infixes.len() || infixes[slot].len() < 1 {
            None
        } else {
            Some((infixes[slot][0], infixes[slot].subrange(1, infixes[slot].len() as int) + suffix))
        }
    } else {
        Some((h.name_index.0, suffix))
    }
}

/// The name string that a listing writes for a key: prefix, name, and a NUL byte.
pub open spec fn key_string(key: (u8, Seq<u8>)) -> Seq<u8> {
    prefix_of(key.0 as int) + key.1 + seq![0u8]
}

/// The suffix of the entry at `p`.
pub open spec fn suffix_at(img: Seq<u8>, p: int) -> Seq<u8> {
    img.subrange(p + 4, p + 4 + entry_header_of(img, p).suffix_len)
}

/// The value of the entry at `p`.
pub open spec fn value_at(img: Seq<u8>, p: int) -> Seq<u8> {
    let h = entry_header_of(img, p);
    img.subrange(p + 4 + h.suffix_len, p + 4 + h.suffix_len + h.value_len)
}

/// The size of the entry at `p` before padding.
pub open spec fn entry_len(img: Seq<u8>, p: int) -> int {
    let h = entry_header_of(img, p);
    4 + h.suffix_len + h.value_len
}

/// Whether the header and suffix of the entry at `p` lie in the image.
pub open spec fn head_readable(img: Seq<u8>, p: int) -> bool {
    p + 4 <= img.len() && p + 4 + entry_header_of(img, p).suffix_len <= img.len()
}

/// The value of the first inline entry from `p` (before `end`) whose key is
/// `(index, name)`.
pub open spec fn spec_inline_get(img: Seq<u8>, infixes: Seq<Seq<u8>>, p: int, end: int, index: u32, name: Seq<u8>) -> PosixResult<Seq<u8>>
    decreases end - p,
{
    if p >= end {
        Err(Errno::ENODATA)
    } else if !head_readable(img, p) {
        Err(Errno::EIO)
    } else if p + entry_len(img, p) > end {
        Err(Errno::EUCLEAN)
    } else {
        match entry_key(infixes, entry_header_of(img, p), suffix_at(img, p)) {
            None => Err(Errno::EUCLEAN),
            Some(key) => if key.0 as int == index as int && key.1 == name {
                if p + entry_len(img, p) > img.len() {
                    Err(Errno::EIO)
                } else {
                    Ok(value_at(img, p))
                }
            } else if round_up(p + entry_len(img, p), 4) <= p {
                Err(Errno::EUCLEAN)
            } else if round_up(p + entry_len(img, p), 4) >= end {
                Err(Errno::ENODATA)
            } else {
                spec_inline_get(img, infixes, round_up(p + entry_len(img, p), 4), end, index, name)
            },
        }
    }
}

/// The value of the first shared entry, from list slot `i` on, whose key is `(index, name)`.
pub open spec fn spec_shared_get(img: Seq<u8>, infixes: Seq<Seq<u8>>, base: int, idxs: Seq<u32>, i: int, index: u32, name: Seq<u8>) -> PosixResult<Seq<u8>>
    decreases idxs.len() - i,
{
    if i < 0 || i >= idxs.len() {
        Err(Errno::ENODATA)
    } else {
        let p = base + 4 * idxs[i];
        if !head_readable(img, p) {
            Err(Errno::EIO)
        } else {
            match entry_key(infixes, entry_header_of(img, p), suffix_at(img, p)) {
                None => Err(Errno::EUCLEAN),
                Some(key) => if key.0 as int == index as int && key.1 == name {
                    if p + entry_len(img, p) > img.len() {
                        Err(Errno::EIO)
                    } else {
                        Ok(value_at(img, p))
                    }
                } else {
                    spec_shared_get(img, infixes, base, idxs, i + 1, index, name)
                },
            }
        }
    }
}

/// The key strings of the inline entries from `p` to `end`.
pub open spec fn spec_inline_keys(img: Seq<u8>, infixes: Seq<Seq<u8>>, p: int, end: int) -> PosixResult<Seq<Seq<u8>>>
    decreases end - p,
{
    if p >= end {
        Ok(Seq::empty())
    } else if !head_readable(img, p) {
        Err(Errno::EIO)
    } else if p + entry_len(img, p) > end {
        Err(Errno::EUCLEAN)
    } else {
        match entry_key(infixes, entry_header_of(img, p), suffix_at(img, p)) {
            None => Err(Errno::EUCLEAN),
            Some(key) => if round_up(p + entry_len(img, p), 4) <= p {
                Err(Errno::EUCLEAN)
            } else if round_up(p + entry_len(img, p), 4) >= end {
                Ok(seq![key_string(key)])
            } else {
                match spec_inline_keys(img, infixes, round_up(p + entry_len(img, p), 4), end) {
                    Ok(rest) => Ok(seq![key_string(key)] + rest),
                    Err(e) => Err(e),
                }
            },
        }
    }
}

/// The key strings of the shared entries from list slot `i` on.
pub open spec fn spec_shared_keys(img: Seq<u8>, infixes: Seq<Seq<u8>>, base: int, idxs: Seq<u32>, i: int) -> PosixResult<Seq<Seq<u8>>>
    decreases idxs.len() - i,
{
    if i < 0 || i >= idxs.len() {
        Ok(Seq::empty())
    } else {
        let p = base + 4 * idxs[i];
        if !head_readable(img, p) {
            Err(Errno::EIO)
        } else {
            match entry_key(infixes, entry_header_of(img, p), suffix_at(img, p)) {
                None => Err(Errno::EUCLEAN),
                Some(key) => match spec_shared_keys(img, infixes, base, idxs, i + 1) {
                    Ok(rest) => Ok(seq![key_string(key)] + rest),
                    Err(e) => Err(e),
                },
            }
        }
    }
}

/// The total length of a list of strings.
pub open spec fn total_len(keys: Seq<Seq<u8>>) -> int
    decreases keys.len(),
{
    if keys.len() == 0 {
        0
    } else {
        keys[0].len() + total_len(keys.drop_first())
    }
}

/// The strings of a list, one after another.
pub open spec fn concat(keys: Seq<Seq<u8>>) -> Seq<u8>
    decreases keys.len(),
{
    if keys.len() == 0 {
        Seq::empty()
    } else {
        keys[0] + concat(keys.drop_first())
    }
}

/// Joining strings gives a string as long as their lengths add up to.
pub proof fn lemma_concat_len(keys: Seq<Seq<u8>>)
    ensures
        concat(keys).len() == total_len(keys),
    decreases keys.len(),
{
    if keys.len() > 0 {
        lemma_concat_len(keys.drop_first());
    }
}

/// Joining a single string gives that string.
pub proof fn lemma_concat_single(x: Seq<u8>)
    ensures
        concat(seq![x]) == x,
{
    assert(seq![x].drop_first() =~= Seq::<Seq<u8>>::empty());
    assert(concat(Seq::<Seq<u8>>::empty()) == Seq::<u8>::empty());
    assert(x + Seq::<u8>::empty() =~= x);
}

/// Joining `a + b` is joining `a`, then `b`.
pub proof fn lemma_concat_append(a: Seq<Seq<u8>>, b: Seq<Seq<u8>>)
    ensures
        concat(a + b) == concat(a) + concat(b),
    decreases a.len(),
{
    if a.len() == 0 {
        assert(a + b =~= b);
        assert(concat(a) + concat(b) =~= concat(b));
    } else {
        assert((a + b).drop_first() =~= a.drop_first() + b);
        lemma_concat_append(a.drop_first(), b);
        assert(concat(a + b) =~= concat(a) + concat(b));
    }
}

/// Appends the bytes of `s` to `out`.
pub fn append_bytes(out: &mut Vec<u8>, s: &[u8])
    ensures
        final(out)@ == old(out)@ + s@,
{
    let mut i: usize = 0;
    let ghost start = out@;
    while i < s.len()
        invariant
            i <= s@.len(),
            out@ == start + s@.subrange(0, i as int),
        decreases s@.len() - i,
    {
        out.push(s[i]);
        i += 1;
        assert(out@ =~= start + s@.subrange(0, i as int));
    }
    assert(s@.subrange(0, s@.len() as int) =~= s@);
}

/// The name string a listing writes for a key.
pub fn key_string_of(key: &(u8, Vec<u8>)) -> (r: Vec<u8>)
    ensures
        r@ == key_string((key.0, key.1@)),
{
    let mut out = xattr_prefix(key.0);
    append_bytes(&mut out, key.1.as_slice());
    out.push(0u8);
    out
}

/// Every shared entry contributes exactly one name string.
pub proof fn lemma_shared_keys_count(img: Seq<u8>, infixes: Seq<Seq<u8>>, base: int, idxs: Seq<u32>, i: int)
    requires
        0 <= i <= idxs.len(),
    ensures
        spec_shared_keys(img, infixes, base, idxs, i) matches Ok(ks) ==> ks.len() == idxs.len() - i,
    decreases idxs.len() - i,
{
    if i < idxs.len() {
        lemma_shared_keys_count(img, infixes, base, idxs, i + 1);
    }
}

/// The total length of `a + b` is the sum of theirs.
pub proof fn lemma_total_len_append(a: Seq<Seq<u8>>, b: Seq<Seq<u8>>)
    ensures
        total_len(a + b) == total_len(a) + total_len(b),
{
    lemma_concat_append(a, b);
    lemma_concat_len(a + b);
    lemma_concat_len(a);
    lemma_concat_len(b);
}

/// Hands a found value over: without a buffer, as a new vector; with one, copied to
/// the buffer's start with its length returned, or `ERANGE` where it does not fit.
pub fn deliver_xattr(value: Vec<u8>, buffer: &mut Option<Vec<u8>>) -> (r: PosixResult<XAttrValue>)
    ensures
        *old(buffer) is None ==> (*final(buffer) is None && (r matches Ok(XAttrValue::Vec(w)) && w@ == value@)),
        *old(buffer) matches Some(b) ==> (b@.len() < value@.len() ==> r == Err::<XAttrValue, Errno>(Errno::ERANGE)
            && *final(buffer) == *old(buffer)),
        *old(buffer) matches Some(b) ==> (b@.len() >= value@.len() ==> ({
            &&& r matches Ok(XAttrValue::Buffer(n)) && n == value@.len()
            &&& *final(buffer) is Some
            &&& (*final(buffer))->Some_0@.len() == b@.len()
            &&& (*final(buffer))->Some_0@.subrange(0, value@.len() as int) == value@
        })),
{
    match buffer {
        None => Ok(XAttrValue::Vec(value)),
        Some(b) => {
            if b.len() < value.len() {
                return Err(Errno::ERANGE);
            }
            let n = value.len();
            let ghost start = b@;
            let mut i: usize = 0;
            while i < n
                invariant
                    n == value@.len(),
                    n <= b@.len(),
                    b@.len() == start.len(),
                    i <= n,
                    forall|j: int| 0 <= j < i ==> b@[j] == value@[j],
                decreases n - i,
            {
                b.set(i, value[i]);
                i += 1;
            }
            assert(b@.subrange(0, n as int) =~= value@);
            Ok(XAttrValue::Buffer(n))
        },
    }
}

/// Copies the name strings `keys` to the start of `buffer` and returns their length,
/// or fails with `ERANGE`, leaving the buffer as it was, where they do not fit.
pub fn write_keys(keys: &[u8], buffer: &mut Vec<u8>) -> (r: PosixResult<usize>)
    ensures
        keys@.len() > old(buffer)@.len() ==> r == Err::<usize, Errno>(Errno::ERANGE) && final(buffer)@ == old(buffer)@,
        keys@.len() <= old(buffer)@.len() ==> ({
            &&& r == Ok::<usize, Errno>(keys@.len() as usize)
            &&& final(buffer)@.len() == old(buffer)@.len()
            &&& final(buffer)@.subrange(0, keys@.len() as int) == keys@
            &&& final(buffer)@.subrange(keys@.len() as int, old(buffer)@.len() as int)
                == old(buffer)@.subrange(keys@.len() as int, old(buffer)@.len() as int)
        }),
        keys@.len() <= usize::MAX,
{
    let n = keys.len();
    if n > buffer.len() {
        return Err(Errno::ERANGE);
    }
    let ghost before = buffer@;
    let mut j: usize = 0;
    while j < n
        invariant
            n == keys@.len(),
            n <= buffer@.len(),
            buffer@.len() == before.len(),
            j <= n,
            forall|k: int| 0 <= k < j ==> buffer@[k] == keys@[k],
            forall|k: int| n <= k < before.len() ==> buffer@[k] == before[k],
        decreases n - j,
    {
        buffer.set(j, keys[j]);
        j += 1;
    }
    assert(buffer@.subrange(0, n as int) =~= keys@);
    assert(buffer@.subrange(n as int, before.len() as int) =~= before.subrange(n as int, before.len() as int));
    Ok(n)
}

impl<B: Backend> KernelFileSystem<B> {
    /// A listing is the inline entries' name strings followed by one name string per
    /// shared entry, and the bytes it takes are the sum of the two parts' lengths.
    pub proof fn lemma_list_total(&self, inode: &Inode)
        requires
            self.spec_list_keys(inode) is Ok,
        ensures
            ({
                let keys = self.spec_list_keys(inode)->Ok_0;
                let shared = spec_shared_keys(self.backend.image(), infix_views(self.infixes@), self.spec_shared_base(),
                    inode.shared_entries.shared_indexes@, 0);
                let inline = keys.subrange(0, keys.len() - shared->Ok_0.len());
                &&& shared is Ok
                &&& shared->Ok_0.len() == inode.shared_entries.shared_indexes@.len()
                &&& keys == inline + shared->Ok_0
                &&& total_len(keys) == total_len(inline) + total_len(shared->Ok_0)
            }),
    {
        let keys = self.spec_list_keys(inode)->Ok_0;
        let idxs = inode.shared_entries.shared_indexes@;
        let shared = spec_shared_keys(self.backend.image(), infix_views(self.infixes@), self.spec_shared_base(), idxs, 0);
        lemma_shared_keys_count(self.backend.image(), infix_views(self.infixes@), self.spec_shared_base(), idxs, 0);
        let b = shared->Ok_0;
        let inline = keys.subrange(0, keys.len() - b.len());
        assert(keys == inline + b) by {
            assert(keys.subrange(keys.len() - b.len(), keys.len() as int) =~= b);
            assert(keys =~= inline + b);
        }
        lemma_total_len_append(inline, b);
    }

    /// Reads the header and name suffix of the entry at `p`.
    pub fn read_entry_head(&self, p: u64) -> (r: PosixResult<(XAttrEntryHeader, Vec<u8>)>)
        ensures
            r matches Ok((h, suffix)) ==> {
                &&& head_readable(self.backend.image(), p as int)
                &&& h == entry_header_of(self.backend.image(), p as int)
                &&& suffix@ == suffix_at(self.backend.image(), p as int)
            },
    {
        let raw = read_bytes(&self.backend, p, XATTR_ENTRY_HEADER_SIZE as usize)?;
        let h = XAttrEntryHeader::from(raw.as_slice());
        if p > u64::MAX - XATTR_ENTRY_HEADER_SIZE {
            return Err(Errno::EIO);
        }
        let suffix = read_bytes(&self.backend, p + XATTR_ENTRY_HEADER_SIZE, h.suffix_len as usize)?;
        Ok((h, suffix))
    }

    /// Resolves the key of an entry with header `h` and suffix `suffix`.
    pub fn entry_key_of(&self, h: &XAttrEntryHeader, suffix: &Vec<u8>) -> (r: Option<(u8, Vec<u8>)>)
        ensures
            r matches Some(k) ==> entry_key(infix_views(self.infixes@), *h, suffix@) == Some((k.0, k.1@)),
            r is None <==> entry_key(infix_views(self.infixes@), *h, suffix@) is None,
    {
        if h.name_index.is_long() {
            let slot = h.name_index.base() as usize;
            if slot >= self.infixes.len() || self.infixes[slot].0.len() < 1 {
                return None;
            }
            let infix = &self.infixes[slot].0;
            let mut name = vstd::slice::slice_to_vec(vstd::slice::slice_subrange(infix.as_slice(), 1, infix.len()));
            append_bytes(&mut name, suffix.as_slice());
            Some((infix[0], name))
        } else {
            Some((h.name_index.0, vstd::slice::slice_to_vec(suffix.as_slice())))
        }
    }

    /// Where `inode`'s inline entries start, past its summary and shared-index list.
    pub open spec fn spec_inline_start(&self, inode: &Inode) -> int {
        spec_iloc(self.sb, inode.nid) + inode.info.spec_inode_size() + XATTR_SUMMARY_SIZE
            + 4 * inode.shared_entries.shared_indexes@.len()
    }

    /// Where `inode`'s inline entries end; before their start where there are none.
    pub open spec fn spec_inline_end(&self, inode: &Inode) -> int {
        spec_iloc(self.sb, inode.nid) + inode.info.spec_inode_size() + inode.info.spec_xattr_size()
    }

    /// Where the shared pool starts.
    pub open spec fn spec_shared_base(&self) -> int {
        self.sb.xattr_blkaddr as int * self.sb.spec_blksz()
    }

    /// The value of `inode`'s attribute `(index, name)`: the first inline match, else
    /// the first shared match, else no data.
    pub open spec fn spec_get_xattr(&self, inode: &Inode, index: u32, name: Seq<u8>) -> PosixResult<Seq<u8>> {
        let img = self.backend.image();
        let infixes = infix_views(self.infixes@);
        let start = self.spec_inline_start(inode);
        let end = self.spec_inline_end(inode);
        let inline = if start > end {
            Err(Errno::ENODATA)
        } else if end > u64::MAX {
            Err(Errno::EUCLEAN)
        } else {
            spec_inline_get(img, infixes, start, end, index, name)
        };
        match inline {
            Err(Errno::ENODATA) => spec_shared_get(img, infixes, self.spec_shared_base(),
                inode.shared_entries.shared_indexes@, 0, index, name),
            other => other,
        }
    }

    /// The name strings of all of `inode`'s attributes: inline ones, then shared ones.
    pub open spec fn spec_list_keys(&self, inode: &Inode) -> PosixResult<Seq<Seq<u8>>> {
        let img = self.backend.image();
        let infixes = infix_views(self.infixes@);
        let start = self.spec_inline_start(inode);
        let end = self.spec_inline_end(inode);
        let inline = if start > end {
            Ok(Seq::empty())
        } else if end > u64::MAX {
            Err(Errno::EUCLEAN)
        } else {
            spec_inline_keys(img, infixes, start, end)
        };
        match inline {
            Ok(a) => match spec_shared_keys(img, infixes, self.spec_shared_base(), inode.shared_entries.shared_indexes@, 0) {
                Ok(b) => Ok(a + b),
                Err(e) => Err(e),
            },
            Err(e) => Err(e),
        }
    }
}

impl<B: Backend> KernelFileSystem<B> {
    /// Looks up the value of `inode`'s attribute `(index, name)`.
    pub fn get_xattr_value(&self, inode: &Inode, index: u32, name: &[u8]) -> (r: PosixResult<Vec<u8>>)
        requires
            self.wf(),
        ensures
            r matches Ok(v) ==> self.spec_get_xattr(inode, index, name@) == Ok::<Seq<u8>, Errno>(v@),
            self.spec_get_xattr(inode, index, name@) is Err ==> r is Err,
            self.spec_inline_start(inode) > self.spec_inline_end(inode) && inode.shared_entries.shared_indexes@.len() == 0
                ==> r == Err::<Vec<u8>, Errno>(Errno::ENODATA),
            self.spec_inline_start(inode) <= self.spec_inline_end(inode) && self.spec_inline_end(inode) > u64::MAX
                ==> r == Err::<Vec<u8>, Errno>(Errno::EUCLEAN),
    {
        let ghost img = self.backend.image();
        let ghost infixes = infix_views(self.infixes@);
        let sc = inode.shared_entries.shared_indexes.len();
        let head = self.sb.iloc(inode.nid) as u128 + inode.info.inode_size() as u128;
        let start = head + XATTR_SUMMARY_SIZE as u128 + 4 * sc as u128;
        let end = head + inode.info.xattr_size() as u128;
        assert(start == self.spec_inline_start(inode));
        assert(end == self.spec_inline_end(inode));
        if start <= end {
            if end > u64::MAX as u128 {
                return Err(Errno::EUCLEAN);
            }
            let mut p: u128 = start;
            while p < end
                invariant
                    self.wf(),
                    img == self.backend.image(),
                    infixes == infix_views(self.infixes@),
                    end <= u64::MAX,
                    start <= p,
                    start <= end,
                    start == self.spec_inline_start(inode),
                    end == self.spec_inline_end(inode),
                    spec_inline_get(img, infixes, start as int, end as int, index, name@)
                        == spec_inline_get(img, infixes, p as int, end as int, index, name@),
                decreases end - p,
            {
                let (h, suffix) = self.read_entry_head(p as u64)?;
                let len = XATTR_ENTRY_HEADER_SIZE as u128 + h.suffix_len as u128 + h.value_len as u128;
                if p + len > end {
                    return Err(Errno::EUCLEAN);
                }
                let key = match self.entry_key_of(&h, &suffix) {
                    Some(k) => k,
                    None => return Err(Errno::EUCLEAN),
                };
                if key.0 as u32 == index && bytes_eq(key.1.as_slice(), name) {
                    let value = read_bytes(&self.backend, (p + XATTR_ENTRY_HEADER_SIZE as u128 + h.suffix_len as u128) as u64, h.value_len as usize)?;
                    return Ok(value);
                }
                let next = ((p + len + 3) / 4) * 4;
                if next >= end {
                    p = end;
                } else {
                    p = next;
                }
            }
        }
        let base = self.sb.blkpos(self.sb.xattr_blkaddr);
        let mut i: usize = 0;
        while i < sc
            invariant
                self.wf(),
                img == self.backend.image(),
                infixes == infix_views(self.infixes@),
                sc == inode.shared_entries.shared_indexes@.len(),
                base == self.spec_shared_base(),
                base <= 0xffff_ffff_0000,
                !(self.spec_inline_start(inode) <= self.spec_inline_end(inode) && self.spec_inline_end(inode) > u64::MAX),
                self.spec_get_xattr(inode, index, name@) == spec_shared_get(img, infixes, base as int,
                    inode.shared_entries.shared_indexes@, i as int, index, name@),
            decreases sc - i,
        {
            let p = base + 4 * inode.shared_entries.shared_indexes[i] as u64;
            let (h, suffix) = self.read_entry_head(p)?;
            let key = match self.entry_key_of(&h, &suffix) {
                Some(k) => k,
                None => return Err(Errno::EUCLEAN),
            };
            if key.0 as u32 == index && bytes_eq(key.1.as_slice(), name) {
                let value = read_bytes(&self.backend, p + XATTR_ENTRY_HEADER_SIZE + h.suffix_len as u64, h.value_len as usize)?;
                return Ok(value);
            }
            i += 1;
        }
        Err(Errno::ENODATA)
    }

    /// The length of the value of `inode`'s attribute `(index, name)`, for a caller
    /// that sizes its buffer first.
    pub fn get_xattr_size(&self, inode: &Inode, index: u32, name: &[u8]) -> (r: PosixResult<usize>)
        requires
            self.wf(),
        ensures
            r matches Ok(n) ==> self.spec_get_xattr(inode, index, name@) is Ok
                && n == self.spec_get_xattr(inode, index, name@)->Ok_0.len(),
            self.spec_get_xattr(inode, index, name@) is Err ==> r is Err,
            self.spec_inline_start(inode) > self.spec_inline_end(inode) && inode.shared_entries.shared_indexes@.len() == 0
                ==> r == Err::<usize, Errno>(Errno::ENODATA),
    {
        let value = self.get_xattr_value(inode, index, name)?;
        Ok(value.len())
    }

    /// Looks up `inode`'s attribute `(index, name)`. Without a buffer the value comes
    /// back whole; with one it is copied to the buffer's start and its length comes
    /// back, or the call fails with `ERANGE` where the buffer is too short.
    pub fn get_xattr(&self, inode: &Inode, index: u32, name: &[u8], buffer: &mut Option<Vec<u8>>) -> (r: PosixResult<XAttrValue>)
        requires
            self.wf(),
        ensures
            self.spec_get_xattr(inode, index, name@) is Err ==> r is Err,
            r is Ok ==> self.spec_get_xattr(inode, index, name@) is Ok,
            r matches Ok(XAttrValue::Vec(w)) ==> {
                &&& *old(buffer) is None
                &&& self.spec_get_xattr(inode, index, name@) == Ok::<Seq<u8>, Errno>(w@)
            },
            r matches Ok(XAttrValue::Buffer(n)) ==> {
                let v = self.spec_get_xattr(inode, index, name@)->Ok_0;
                &&& *old(buffer) is Some
                &&& *final(buffer) is Some
                &&& n == v.len()
                &&& (*final(buffer))->Some_0@.len() == (*old(buffer))->Some_0@.len()
                &&& (*final(buffer))->Some_0@.subrange(0, n as int) == v
            },
            *old(buffer) is None ==> *final(buffer) is None,
            self.spec_get_xattr(inode, index, name@) matches Ok(v) && *old(buffer) matches Some(b) && b@.len() < v.len()
                ==> r is Err,
            self.spec_inline_start(inode) > self.spec_inline_end(inode) && inode.shared_entries.shared_indexes@.len() == 0
                ==> r == Err::<XAttrValue, Errno>(Errno::ENODATA),
    {
        let value = self.get_xattr_value(inode, index, name)?;
        deliver_xattr(value, buffer)
    }

    /// Writes the name strings of all of `inode`'s attributes, one after another,
    /// to the start of `buffer` and returns how many bytes they take; fails with
    /// `ERANGE` where the buffer is too short.
    pub fn list_xattrs(&self, inode: &Inode, buffer: &mut Vec<u8>) -> (r: PosixResult<usize>)
        requires
            self.wf(),
        ensures
            self.spec_list_keys(inode) is Err ==> r is Err,
            r matches Ok(n) ==> {
                let keys = self.spec_list_keys(inode)->Ok_0;
                &&& self.spec_list_keys(inode) is Ok
                &&& n == total_len(keys)
                &&& final(buffer)@.len() == old(buffer)@.len()
                &&& final(buffer)@.subrange(0, n as int) == concat(keys)
            },
            self.spec_list_keys(inode) matches Ok(keys) && total_len(keys) > old(buffer)@.len() ==> r is Err,
            self.spec_inline_start(inode) > self.spec_inline_end(inode) && inode.shared_entries.shared_indexes@.len() == 0
                ==> r == Ok::<usize, Errno>(0) && final(buffer)@ == old(buffer)@,
    {
        let ghost img = self.backend.image();
        let ghost infixes = infix_views(self.infixes@);
        let ghost mut done: Seq<Seq<u8>> = Seq::empty();
        let mut out: Vec<u8> = Vec::new();
        let sc = inode.shared_entries.shared_indexes.len();
        let head = self.sb.iloc(inode.nid) as u128 + inode.info.inode_size() as u128;
        let start = head + XATTR_SUMMARY_SIZE as u128 + 4 * sc as u128;
        let end = head + inode.info.xattr_size() as u128;
        assert(start == self.spec_inline_start(inode));
        assert(end == self.spec_inline_end(inode));
        let ghost inline_keys: Seq<Seq<u8>> = Seq::empty();
        if start <= end {
            if end > u64::MAX as u128 {
                return Err(Errno::EUCLEAN);
            }
            let mut p: u128 = start;
            while p < end
                invariant
                    self.wf(),
                    img == self.backend.image(),
                    infixes == infix_views(self.infixes@),
                    end <= u64::MAX,
                    start <= p,
                    start <= end,
                    start == self.spec_inline_start(inode),
                    end == self.spec_inline_end(inode),
                    out@ == concat(done),
                    spec_inline_keys(img, infixes, start as int, end as int) == match spec_inline_keys(img, infixes, p as int, end as int) {
                        Ok(rest) => Ok(done + rest),
                        Err(e) => Err::<Seq<Seq<u8>>, Errno>(e),
                    },
                decreases end - p,
            {
                let (h, suffix) = self.read_entry_head(p as u64)?;
                let len = XATTR_ENTRY_HEADER_SIZE as u128 + h.suffix_len as u128 + h.value_len as u128;
                if p + len > end {
                    return Err(Errno::EUCLEAN);
                }
                let key = match self.entry_key_of(&h, &suffix) {
                    Some(k) => k,
                    None => return Err(Errno::EUCLEAN),
                };
                let ks = key_string_of(&key);
                proof {
                    lemma_concat_append(done, seq![ks@]);
                    lemma_concat_single(ks@);
                    let next = round_up(p + len, 4);
                    if next < end {
                        if let Ok(rest) = spec_inline_keys(img, infixes, next, end as int) {
                            assert(done + (seq![ks@] + rest) =~= done.push(ks@) + rest);
                        }
                    } else {
                        assert(done + seq![ks@] =~= done.push(ks@) + Seq::<Seq<u8>>::empty());
                    }
                    assert(done.push(ks@) =~= done + seq![ks@]);
                    done = done.push(ks@);
                }
                append_bytes(&mut out, ks.as_slice());
                let next = ((p + len + 3) / 4) * 4;
                if next >= end {
                    p = end;
                } else {
                    p = next;
                }
            }
            assert(done + Seq::<Seq<u8>>::empty() =~= done);
        }
        proof {
            inline_keys = done;
        }
        let base = self.sb.blkpos(self.sb.xattr_blkaddr);
        let mut i: usize = 0;
        while i < sc
            invariant
                self.wf(),
                img == self.backend.image(),
                infixes == infix_views(self.infixes@),
                sc == inode.shared_entries.shared_indexes@.len(),
                base == self.spec_shared_base(),
                base <= 0xffff_ffff_0000,
                out@ == concat(done),
                i == 0 && self.spec_inline_start(inode) > self.spec_inline_end(inode) ==> done.len() == 0,
                self.spec_list_keys(inode) == match spec_shared_keys(img, infixes, base as int, inode.shared_entries.shared_indexes@, i as int) {
                    Ok(rest) => Ok(done + rest),
                    Err(e) => Err::<Seq<Seq<u8>>, Errno>(e),
                },
            decreases sc - i,
        {
            let p = base + 4 * inode.shared_entries.shared_indexes[i] as u64;
            let (h, suffix) = self.read_entry_head(p)?;
            let key = match self.entry_key_of(&h, &suffix) {
                Some(k) => k,
                None => return Err(Errno::EUCLEAN),
            };
            let ks = key_string_of(&key);
            proof {
                lemma_concat_append(done, seq![ks@]);
                lemma_concat_single(ks@);
                if let Ok(rest) = spec_shared_keys(img, infixes, base as int, inode.shared_entries.shared_indexes@, i + 1) {
                    assert(done + (seq![ks@] + rest) =~= done.push(ks@) + rest);
                }
                assert(done.push(ks@) =~= done + seq![ks@]);
                done = done.push(ks@);
            }
            append_bytes(&mut out, ks.as_slice());
            i += 1;
        }
        proof {
            assert(done + Seq::<Seq<u8>>::empty() =~= done);
            lemma_concat_len(done);
        }
        let ghost before = buffer@;
        let r = write_keys(out.as_slice(), buffer);
        proof {
            if out@.len() == 0 {
                assert(buffer@.len() == before.len());
                assert(buffer@.subrange(0, buffer@.len() as int) =~= buffer@);
                assert(before.subrange(0, before.len() as int) =~= before);
                assert(buffer@ =~= before);
            }
        }
        r
    }
}

} // verus!
