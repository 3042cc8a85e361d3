//! Access to the bytes of an image: sources, backends, borrowed buffers and the
//! iterator that walks a byte range one block at a time.
use vstd::prelude::*;
use crate::errnos::{Errno, PosixResult};
use crate::dir::{dir_block_entries, DirCollection};
use crate::superblock::SuperBlock;
use crate::Off;

verus! {

/// Raw access to an image's bytes: a file, a memory region, a device.
pub trait Source {
    /// The bytes of the image.
    spec fn image(&self) -> Seq<u8>;

    /// Fills `data` with the bytes at `offset`. On success every byte of `data` was
    /// read and the count is returned.
    fn fill(&self, data: &mut [u8], offset: Off) -> (r: PosixResult<u64>)
        ensures
            final(data)@.len() == old(data)@.len(),
            r is Ok ==> {
                &&& r->Ok_0 == old(data)@.len()
                &&& offset + old(data)@.len() <= self.image().len()
                &&& final(data)@ == self.image().subrange(offset as int, offset + old(data)@.len())
            },
    ;

    /// Lends a view of the `len` bytes at `offset`.
    fn as_buf(&self, offset: Off, len: Off) -> (r: PosixResult<RefBuffer<'_>>)
        ensures
            r is Ok ==> {
                &&& offset + len <= self.image().len()
                &&& r->Ok_0.wf()
                &&& r->Ok_0@ == self.image().subrange(offset as int, offset + len)
            },
    ;
}

/// Access to an image's bytes once any decompression has been applied. The
/// operations are those of a [`Source`].
pub trait Backend {
    /// The bytes of the image.
    spec fn image(&self) -> Seq<u8>;

    /// Fills `data` with the bytes at `offset`. On success every byte of `data` was
    /// read and the count is returned.
    fn fill(&self, data: &mut [u8], offset: Off) -> (r: PosixResult<u64>)
        ensures
            final(data)@.len() == old(data)@.len(),
            r is Ok ==> {
                &&& r->Ok_0 == old(data)@.len()
                &&& offset + old(data)@.len() <= self.image().len()
                &&& final(data)@ == self.image().subrange(offset as int, offset + old(data)@.len())
            },
    ;

    /// Lends a view of the `len` bytes at `offset`.
    fn as_buf(&self, offset: Off, len: Off) -> (r: PosixResult<RefBuffer<'_>>)
        ensures
            r is Ok ==> {
                &&& offset + len <= self.image().len()
                &&& r->Ok_0.wf()
                &&& r->Ok_0@ == self.image().subrange(offset as int, offset + len)
            },
    ;
}

/// A backend for an image stored without compression: it hands its source's bytes on.
pub struct UncompressedBackend<S: Source> {
    pub source: S,
}

impl<S: Source> UncompressedBackend<S> {
    pub fn new(source: S) -> (r: Self)
        ensures
            r.source == source,
    {
        UncompressedBackend { source }
    }
}

impl<S: Source> Backend for UncompressedBackend<S> {
    open spec fn image(&self) -> Seq<u8> {
        self.source.image()
    }

    fn fill(&self, data: &mut [u8], offset: Off) -> (r: PosixResult<u64>) {
        self.source.fill(data, offset)
    }

    fn as_buf(&self, offset: Off, len: Off) -> (r: PosixResult<RefBuffer<'_>>) {
        self.source.as_buf(offset, len)
    }
}

/// An image held in memory.
pub struct MemSource {
    pub data: Vec<u8>,
}

impl MemSource {
    pub fn new(data: Vec<u8>) -> (r: Self)
        ensures
            r.data@ == data@,
    {
        MemSource { data }
    }
}

impl Source for MemSource {
    open spec fn image(&self) -> Seq<u8> {
        self.data@
    }

    /// A read past the end of the image fails with `EIO`.
    fn fill(&self, data: &mut [u8], offset: Off) -> (r: PosixResult<u64>) {
        let n = data.len();
        if offset > self.data.len() as u64 || n as u64 > self.data.len() as u64 - offset {
            return Err(Errno::EIO);
        }
        let start = offset as usize;
        let dlen = self.data.len();
        let mut i: usize = 0;
        while i < n
            invariant
                n == data@.len(),
                dlen == self.data@.len(),
                start + n <= dlen,
                i <= n,
                forall|j: int| 0 <= j < i ==> data@[j] == self.data@[start + j],
            decreases n - i,
        {
            data[i] = self.data[start + i];
            i += 1;
        }
        assert(data@ =~= self.data@.subrange(start as int, start + n));
        Ok(n as u64)
    }

    /// A view past the end of the image fails with `EIO`.
    fn as_buf(&self, offset: Off, len: Off) -> (r: PosixResult<RefBuffer<'_>>) {
        if offset > self.data.len() as u64 || len > self.data.len() as u64 - offset {
            return Err(Errno::EIO);
        }
        Ok(RefBuffer::new(self.data.as_slice(), offset as usize, len as usize))
    }
}

/// A view of `len` bytes from `start` of a borrowed slice.
pub struct RefBuffer<'a> {
    buf: &'a [u8],
    start: usize,
    len: usize,
}

impl<'a> View for RefBuffer<'a> {
    type V = Seq<u8>;

    closed spec fn view(&self) -> Seq<u8> {
        self.buf@.subrange(self.start as int, self.start + self.len)
    }
}

impl<'a> RefBuffer<'a> {
    /// The viewed range lies inside the slice.
    pub closed spec fn wf(&self) -> bool {
        self.start + self.len <= self.buf@.len() <= usize::MAX
    }

    pub fn new(buf: &'a [u8], start: usize, len: usize) -> (r: Self)
        requires
            start + len <= buf@.len(),
        ensures
            r.wf(),
            r@ == buf@.subrange(start as int, start + len),
    {
        let _ = buf.len();
        RefBuffer { buf, start, len }
    }

    /// The viewed bytes.
    pub fn content(&self) -> (r: &[u8])
        requires
            self.wf(),
        ensures
            r@ == self@,
    {
        vstd::slice::slice_subrange(self.buf, self.start, self.start + self.len)
    }
}

impl<'a> RefBuffer<'a> {
    /// Decodes the viewed bytes as a directory block.
    pub fn iter_dir(&self) -> (r: PosixResult<DirCollection>)
        requires
            self.wf(),
        ensures
            r matches Ok(c) ==> dir_block_entries(self@) == Some(c.view()),
            r is Err <==> dir_block_entries(self@) is None,
    {
        DirCollection::new(self.content())
    }
}

/// Reads the `len` bytes at `offset` into a new vector.
pub fn read_bytes<B: Backend>(backend: &B, offset: Off, len: usize) -> (r: PosixResult<Vec<u8>>)
    ensures
        r is Ok ==> {
            &&& offset + len <= backend.image().len()
            &&& r->Ok_0@ == backend.image().subrange(offset as int, offset + len)
        },
{
    let mut buf: Vec<u8> = vec![0u8; len];
    let r = backend.fill(buf.as_mut_slice(), offset);
    match r {
        Ok(_) => Ok(buf),
        Err(e) => Err(e),
    }
}

/// Walks the bytes `[offset, offset + len)` of the image, one buffer per block.
pub struct ContinuousRefIter<'a, B: Backend> {
    pub sb: &'a SuperBlock,
    pub backend: &'a B,
    pub offset: Off,
    pub len: Off,
}

impl<'a, B: Backend> ContinuousRefIter<'a, B> {
    pub fn new(sb: &'a SuperBlock, backend: &'a B, offset: Off, len: Off) -> (r: Self)
        ensures
            r.sb == sb,
            r.backend == backend,
            r.offset == offset,
            r.len == len,
    {
        ContinuousRefIter { sb, backend, offset, len }
    }

    /// The next buffer: the bytes from the current offset to the next block boundary
    /// or to the end of the range, whichever comes first. A failed read leaves the
    /// iterator where it was.
    pub fn next(&mut self) -> (r: Option<PosixResult<RefBuffer<'a>>>)
        requires
            old(self).sb.wf(),
            old(self).offset + old(self).len <= u64::MAX,
        ensures
            final(self).sb == old(self).sb,
            final(self).backend == old(self).backend,
            final(self).offset + final(self).len == old(self).offset + old(self).len,
            old(self).len == 0 <==> r is None,
            r matches Some(Err(_)) ==> *final(self) == *old(self),
            r matches Some(Ok(b)) ==> {
                let step = final(self).offset - old(self).offset;
                let boundary = old(self).sb.spec_blksz() - old(self).offset as int % old(self).sb.spec_blksz();
                &&& step == if boundary < old(self).len { boundary } else { old(self).len as int }
                &&& b.wf()
                &&& b@ == old(self).backend.image().subrange(old(self).offset as int, final(self).offset as int)
            },
    {
        if self.len == 0 {
            return None;
        }
        let accessor = self.sb.blk_access(self.offset);
        let len = if accessor.len < self.len { accessor.len } else { self.len };
        match self.backend.as_buf(self.offset, len) {
            Ok(buf) => {
                self.offset = self.offset + len;
                self.len = self.len - len;
                Some(Ok(buf))
            },
            Err(e) => Some(Err(e)),
        }
    }

    /// Skips `offset` bytes without reading them.
    pub fn advance_off(&mut self, offset: Off)
        requires
            offset <= old(self).len,
            old(self).offset + old(self).len <= u64::MAX,
        ensures
            final(self).sb == old(self).sb,
            final(self).backend == old(self).backend,
            final(self).offset == old(self).offset + offset,
            final(self).len == old(self).len - offset,
    {
        self.offset = self.offset + offset;
        self.len = self.len - offset;
    }

    /// Whether the range is used up.
    pub fn eof(&self) -> (r: bool)
        ensures
            r == (self.len == 0),
    {
        self.len == 0
    }
}

} // verus!
