//! Extended-attribute records: the per-inode summary of shared entries, entry
//! headers, name prefixes and the per-image infix table.
use vstd::prelude::*;
use crate::bytes::{le16, le32, read_u16, read_u32};

verus! {

/// The summary that opens an inode's attribute region.
#[derive(Clone, Copy, Debug)]
pub struct XAttrSharedEntrySummary {
    /// A bloom-style filter over the attribute names.
    pub name_filter: u32,
    /// How many shared-pool indices follow the summary.
    pub shared_count: u8,
}

/// The summary encoded at `p`.
pub open spec fn summary_of(s: Seq<u8>, p: int) -> XAttrSharedEntrySummary {
    XAttrSharedEntrySummary { name_filter: le32(s, p) as u32, shared_count: s[p + 4] }
}

impl XAttrSharedEntrySummary {
    /// Decodes the summary at the start of `s`.
    pub fn from(s: &[u8]) -> (r: XAttrSharedEntrySummary)
        requires
            s@.len() >= 12,
        ensures
            r == summary_of(s@, 0),
    {
        XAttrSharedEntrySummary { name_filter: read_u32(s, 0), shared_count: s[4] }
    }
}

/// An inode's name filter and the indices of the shared-pool entries it uses.
pub struct XAttrSharedEntries {
    pub name_filter: u32,
    pub shared_indexes: Vec<u32>,
}

/// Set in a name index when the name's prefix comes from the per-image infix table.
pub const EROFS_XATTR_LONG_PREFIX: u8 = 0x80;

/// The bits of a long name index that select the infix.
pub const EROFS_XATTR_LONG_MASK: u8 = 0x7f;

/// The name index of an attribute entry.
#[derive(Clone, Copy, Debug)]
pub struct XattrNameIndex(pub u8);

impl XattrNameIndex {
    pub open spec fn spec_is_long(self) -> bool {
        self.0 >= 0x80
    }

    /// The built-in prefix index, or for a long index the infix-table slot.
    pub open spec fn spec_base(self) -> u8 {
        (self.0 % 0x80) as u8
    }

    pub fn is_long(&self) -> (r: bool)
        ensures
            r == self.spec_is_long(),
    {
        let v = self.0;
        assert(v & 0x80 != 0 <==> v >= 0x80) by (bit_vector);
        self.0 & EROFS_XATTR_LONG_PREFIX != 0
    }

    pub fn base(&self) -> (r: u8)
        ensures
            r == self.spec_base(),
    {
        let v = self.0;
        assert(v & 0x7f == v % 0x80) by (bit_vector);
        self.0 & EROFS_XATTR_LONG_MASK
    }
}

/// Size of an attribute entry header.
pub const XATTR_ENTRY_HEADER_SIZE: u64 = 4;

/// The header of one attribute entry; the suffix and value bytes follow it.
#[derive(Clone, Copy, Debug)]
pub struct XAttrEntryHeader {
    pub suffix_len: u8,
    pub name_index: XattrNameIndex,
    pub value_len: u16,
}

/// The entry header encoded at `p`.
pub open spec fn entry_header_of(s: Seq<u8>, p: int) -> XAttrEntryHeader {
    XAttrEntryHeader {
        suffix_len: s[p],
        name_index: XattrNameIndex(s[p + 1]),
        value_len: le16(s, p + 2) as u16,
    }
}

impl XAttrEntryHeader {
    /// Decodes the header at the start of `s`.
    pub fn from(s: &[u8]) -> (r: XAttrEntryHeader)
        requires
            s@.len() >= 4,
        ensures
            r == entry_header_of(s@, 0),
    {
        XAttrEntryHeader {
            suffix_len: s[0],
            name_index: XattrNameIndex(s[1]),
            value_len: read_u16(s, 2),
        }
    }
}

/// A common name fragment: its first byte is the built-in prefix index it extends,
/// the rest is the fragment.
pub struct XAttrInfix(pub Vec<u8>);

impl XAttrInfix {
    /// An infix holds at least its prefix index.
    pub open spec fn wf(&self) -> bool {
        self.0@.len() >= 1
    }

    pub fn prefix_index(&self) -> (r: u8)
        requires
            self.wf(),
        ensures
            r == self.0@[0],
    {
        self.0[0]
    }

    pub fn name(&self) -> (r: &[u8])
        requires
            self.wf(),
        ensures
            r@ == self.0@.subrange(1, self.0@.len() as int),
    {
        vstd::slice::slice_subrange(self.0.as_slice(), 1, self.0.len())
    }
}

/// The built-in name prefix at `i`.
pub open spec fn prefix_of(i: int) -> Seq<u8> {
    if i == 1 {
        seq![117u8, 115, 101, 114, 46]
    } else if i == 2 {
        seq![115u8, 121, 115, 116, 101, 109, 46, 112, 111, 115, 105, 120, 95, 97, 99, 108, 95, 97, 99, 99, 101, 115, 115]
    } else if i == 3 {
        seq![115u8, 121, 115, 116, 101, 109, 46, 112, 111, 115, 105, 120, 95, 97, 99, 108, 95, 100, 101, 102, 97, 117, 108, 116]
    } else if i == 4 {
        seq![116u8, 114, 117, 115, 116, 101, 100, 46]
    } else if i == 6 {
        seq![115u8, 101, 99, 117, 114, 105, 116, 121, 46]
    } else {
        seq![]
    }
}

/// The built-in name prefix at `i`: "", "user.", "system.posix_acl_access",
/// "system.posix_acl_default", "trusted.", "", "security."; past the table, "".
pub fn xattr_prefix(i: u8) -> (r: Vec<u8>)
    ensures
        r@ == prefix_of(i as int),
{
    if i == 1 {
        vec![117u8, 115, 101, 114, 46]
    } else if i == 2 {
        vec![115u8, 121, 115, 116, 101, 109, 46, 112, 111, 115, 105, 120, 95, 97, 99, 108, 95, 97, 99, 99, 101, 115, 115]
    } else if i == 3 {
        vec![115u8, 121, 115, 116, 101, 109, 46, 112, 111, 115, 105, 120, 95, 97, 99, 108, 95, 100, 101, 102, 97, 117, 108, 116]
    } else if i == 4 {
        vec![116u8, 114, 117, 115, 116, 101, 100, 46]
    } else if i == 6 {
        vec![115u8, 101, 99, 117, 114, 105, 116, 121, 46]
    } else {
        Vec::new()
    }
}

/// The value of an attribute, or its length where it was copied into a caller's buffer.
#[derive(Debug)]
pub enum XAttrValue {
    Buffer(usize),
    Vec(Vec<u8>),
}

} // verus!
