use erofs::data::{MemSource, UncompressedBackend};
use erofs::dir::DirCollection;
use erofs::filesystem::{check_record, check_shared_summary, decode_shared_indexes, find_in_block, list_block};
use erofs::operations::decode_infix_head;
use erofs::xattr_ops::{deliver_xattr, write_keys};
use erofs::xattrs::XAttrSharedEntrySummary;
use erofs::errnos::Errno;
use erofs::filesystem::KernelFileSystem;
use erofs::inode::{Format, InodeInfo, Layout, Spec, Type, Version};
use erofs::map::MapType;
use erofs::operations::{dir_lookup, read_inode, InodeCollection};
use erofs::superblock::{Accessor, SuperBlock};
use erofs::xattrs::XAttrValue;

type Fs = KernelFileSystem<UncompressedBackend<MemSource>>;

const BLK: usize = 4096;
const META_BLK: u32 = 1;
const XATTR_BLK: u32 = 12;

fn put16(img: &mut [u8], at: usize, v: u16) {
    img[at..at + 2].copy_from_slice(&v.to_le_bytes());
}

fn put32(img: &mut [u8], at: usize, v: u32) {
    img[at..at + 4].copy_from_slice(&v.to_le_bytes());
}

fn put64(img: &mut [u8], at: usize, v: u64) {
    img[at..at + 8].copy_from_slice(&v.to_le_bytes());
}

/// A 64 KiB image with 4 KiB blocks, metadata from block 1, shared xattrs at block 12.
fn blank_image() -> Vec<u8> {
    let mut img = vec![0u8; 16 * BLK];
    let sb = 1024;
    put32(&mut img, sb, 0xE0F5_E1E2);
    img[sb + 12] = 12;
    put16(&mut img, sb + 14, 0);
    put32(&mut img, sb + 40, META_BLK);
    put32(&mut img, sb + 44, XATTR_BLK);
    img
}

fn inode_pos(nid: u64) -> usize {
    META_BLK as usize * BLK + nid as usize * 32
}

/// Writes a compact inode record.
fn compact_inode(img: &mut [u8], nid: u64, layout: u16, mode: u16, size: u32, u: u32) {
    let p = inode_pos(nid);
    put16(img, p, layout << 1);
    put16(img, p + 2, 0);
    put16(img, p + 4, mode);
    put16(img, p + 6, 1);
    put32(img, p + 8, size);
    put32(img, p + 16, u);
    put32(img, p + 20, nid as u32 + 100);
}

/// Writes an extended inode record.
fn extended_inode(img: &mut [u8], nid: u64, layout: u16, mode: u16, size: u64, u: u32, icount: u16) {
    let p = inode_pos(nid);
    put16(img, p, (layout << 1) | 1);
    put16(img, p + 2, icount);
    put16(img, p + 4, mode);
    put64(img, p + 8, size);
    put32(img, p + 16, u);
    put32(img, p + 20, nid as u32 + 100);
    put32(img, p + 44, 1);
}

/// Writes a directory block of `entries` at byte `at` and returns its length.
fn dir_block(img: &mut [u8], at: usize, entries: &[(&[u8], u64, u8)]) -> usize {
    let mut nameoff = 12 * entries.len();
    for (i, (name, nid, ty)) in entries.iter().enumerate() {
        put64(img, at + 12 * i, *nid);
        put16(img, at + 12 * i + 8, nameoff as u16);
        img[at + 12 * i + 10] = *ty;
        img[at + nameoff..at + nameoff + name.len()].copy_from_slice(name);
        nameoff += name.len();
    }
    nameoff
}

fn mount(img: Vec<u8>) -> Fs {
    match KernelFileSystem::try_new(UncompressedBackend::new(MemSource::new(img))) {
        Ok(fs) => fs,
        Err(e) => panic!("mount failed: {:?}", e),
    }
}

const S_IFDIR: u16 = 0o040000;
const S_IFREG: u16 = 0o100000;

/// An image whose inode 0 is a directory holding "a" -> 1 and "bb" -> 2, with
/// inodes 1 and 2 present as empty regular files.
fn dir_image() -> Vec<u8> {
    let mut img = blank_image();
    let len = dir_block(&mut img, 2 * BLK, &[(b"a", 1, 1), (b"bb", 2, 1)]);
    compact_inode(&mut img, 0, 0, S_IFDIR | 0o755, len as u32, 2);
    compact_inode(&mut img, 1, 0, S_IFREG | 0o644, 0, 0);
    compact_inode(&mut img, 2, 0, S_IFREG | 0o644, 0, 0);
    img
}

#[test]
fn accessor_splits_an_address() {
    let a = Accessor::new(5000, 12);
    assert_eq!((a.base, a.off, a.len, a.nr), (4096, 904, 3192, 1));
    assert_eq!(a.base + a.off, 5000);
    let b = Accessor::new(8192, 12);
    assert_eq!((b.base, b.off, b.len, b.nr), (8192, 0, 4096, 2));
}

#[test]
fn superblock_fields_and_arithmetic() {
    let img = blank_image();
    let sb = SuperBlock::try_from(&img[1024..]).unwrap();
    assert_eq!(sb.magic, 0xE0F5_E1E2);
    assert_eq!(sb.blkszbits, 12);
    assert_eq!(sb.meta_blkaddr, META_BLK);
    assert_eq!(sb.xattr_blkaddr, XATTR_BLK);
    assert_eq!(sb.blksz(), 4096);
    assert_eq!(sb.blknr(8192), 2);
    assert_eq!(sb.blknr(8191), 1);
    assert_eq!(sb.blkpos(3), 12288);
    assert_eq!(sb.blk_round_up(4097), 2);
    assert_eq!(sb.blk_round_up(4096), 1);
    assert_eq!(sb.blk_round_up(0), 0);
    assert_eq!(sb.iloc(3), 4096 + 96);
    assert_eq!(sb.iloc(u64::MAX), 4096 - 32);
    for x in [0u64, 4096, 40960, 4096 * 1000] {
        assert_eq!(sb.blkpos(sb.blknr(x)), x);
    }
}

#[test]
fn superblock_rejects_short_or_degenerate_input() {
    let img = blank_image();
    assert_eq!(SuperBlock::try_from(&img[1024..1100]).unwrap_err(), Errno::EUCLEAN);
    let mut bad = img.clone();
    bad[1024 + 12] = 8;
    assert_eq!(SuperBlock::try_from(&bad[1024..]).unwrap_err(), Errno::EUCLEAN);
    bad[1024 + 12] = 17;
    assert_eq!(SuperBlock::try_from(&bad[1024..]).unwrap_err(), Errno::EUCLEAN);
    let short = vec![0u8; 1100];
    assert!(KernelFileSystem::try_new(UncompressedBackend::new(MemSource::new(short))).is_err());
}

#[test]
fn inode_records_decode() {
    let mut img = dir_image();
    extended_inode(&mut img, 4, 2, S_IFREG | 0o600, 5000, 7, 4);
    let fs = mount(img);
    let dir = fs.read_inode_info(0).unwrap();
    assert!(matches!(dir, InodeInfo::Compact(_)));
    assert_eq!(dir.inode_type(), Type::Directory);
    assert_eq!(dir.inode_size(), 32);
    assert_eq!(dir.file_size(), 27);
    assert_eq!(dir.ino(), 100);
    assert!(matches!(dir.spec(), Spec::RawBlk(2)));
    assert_eq!(dir.format().layout(), Layout::FlatPlain);
    assert_eq!(dir.format().version(), Version::Compat);
    assert_eq!(dir.xattr_size(), 0);
    let ext = fs.read_inode_info(4).unwrap();
    assert!(matches!(ext, InodeInfo::Extended(_)));
    assert_eq!(ext.inode_type(), Type::Regular);
    assert_eq!(ext.inode_size(), 64);
    assert_eq!(ext.file_size(), 5000);
    assert_eq!(ext.format().layout(), Layout::FlatInline);
    assert_eq!(ext.xattr_count(), 4);
    assert_eq!(ext.xattr_size(), 24);
    assert_eq!(Format(0x07).layout(), Layout::CompressedCompact);
    assert_eq!(Format(0x07).version(), Version::Extended);
    assert_eq!(Format(0x0b).layout(), Layout::Unknown);
}

#[test]
fn device_inodes_carry_no_mapping() {
    let mut img = blank_image();
    compact_inode(&mut img, 0, 0, 0o020644, 0, 5);
    compact_inode(&mut img, 1, 0, 0o010644, 0, 5);
    let fs = mount(img);
    let chr = fs.read_inode_info(0).unwrap();
    assert_eq!(chr.inode_type(), Type::Character);
    assert!(matches!(chr.spec(), Spec::Unknown));
    assert_eq!(fs.read_inode_info(1).unwrap().inode_type(), Type::Fifo);
}

#[test]
fn find_nid_scans_directory() {
    let fs = mount(dir_image());
    let mut inodes = InodeCollection::new();
    let dir = read_inode(&fs, &mut inodes, 0).unwrap();
    assert_eq!(fs.find_nid(dir, b"bb"), Ok(Some(2)));
    assert_eq!(fs.find_nid(dir, b"a"), Ok(Some(1)));
    assert_eq!(fs.find_nid(dir, b"c"), Ok(None));
    assert_eq!(fs.find_nid(dir, b"b"), Ok(None));
}

#[test]
fn dir_lookup_reads_the_named_inode() {
    let fs = mount(dir_image());
    let mut inodes = InodeCollection::new();
    let dir = Box::new(read_inode(&fs, &mut inodes, 0).unwrap().info);
    let dir = erofs::inode::Inode::new(*dir, 0, fs.read_inode_xattrs_shared_entries(0, &dir).unwrap());
    let found = dir_lookup(&fs, &mut inodes, &dir, b"bb").unwrap();
    assert_eq!(found.nid(), 2);
    assert_eq!(found.info().ino(), 102);
    assert_eq!(dir_lookup(&fs, &mut inodes, &dir, b"c").err(), Some(Errno::ENOENT));
}

#[test]
fn inode_collection_keeps_one_inode_per_number() {
    let fs = mount(dir_image());
    let mut inodes = InodeCollection::new();
    assert_eq!(inodes.iget(1, &fs).unwrap().nid(), 1);
    assert_eq!(inodes.iget(1, &fs).unwrap().nid(), 1);
    assert_eq!(inodes.iget(2, &fs).unwrap().nid(), 2);
    assert_eq!(inodes.inodes.len(), 2);
}

#[test]
fn fill_dentries_lists_and_resumes() {
    let fs = mount(dir_image());
    let mut inodes = InodeCollection::new();
    let dir = inodes.iget(0, &fs).unwrap();
    let all = fs.fill_dentries(dir, 0).unwrap();
    let seen: Vec<(Vec<u8>, u64, u64)> = all.iter().map(|(d, p)| (d.name.clone(), d.desc.nid, *p)).collect();
    assert_eq!(seen, vec![(b"a".to_vec(), 1, 12), (b"bb".to_vec(), 2, 24)]);
    let rest = fs.fill_dentries(dir, all[0].1).unwrap();
    let seen: Vec<(Vec<u8>, u64, u64)> = rest.iter().map(|(d, p)| (d.name.clone(), d.desc.nid, *p)).collect();
    assert_eq!(seen, vec![(b"bb".to_vec(), 2, 24)]);
    assert!(fs.fill_dentries(dir, all[1].1).unwrap().is_empty());
    assert!(fs.fill_dentries(dir, 27).unwrap().is_empty());
    assert_eq!(fs.fill_dentries(dir, 28).err(), Some(Errno::EUCLEAN));
}

#[test]
fn fill_dentries_crosses_blocks() {
    let mut img = blank_image();
    dir_block(&mut img, 2 * BLK, &[(b".", 0, 2), (b"x", 3, 1)]);
    let len = dir_block(&mut img, 3 * BLK, &[(b"y", 4, 1), (b"z", 5, 1)]);
    compact_inode(&mut img, 0, 0, S_IFDIR | 0o755, (BLK + len) as u32, 2);
    let fs = mount(img);
    let mut inodes = InodeCollection::new();
    let dir = inodes.iget(0, &fs).unwrap();
    let all = fs.fill_dentries(dir, 0).unwrap();
    let positions: Vec<u64> = all.iter().map(|(_, p)| *p).collect();
    assert_eq!(positions, vec![12, 24, 4096 + 12, 4096 + 24]);
    let names: Vec<Vec<u8>> = all.iter().map(|(d, _)| d.name.clone()).collect();
    assert_eq!(names, vec![b".".to_vec(), b"x".to_vec(), b"y".to_vec(), b"z".to_vec()]);
    let from_second_block = fs.fill_dentries(dir, 24).unwrap();
    assert_eq!(from_second_block.len(), 2);
    assert_eq!(from_second_block[0].0.desc.nid, 4);
    assert_eq!(fs.find_nid(dir, b"z"), Ok(Some(5)));
}

#[test]
fn malformed_directory_block_is_corrupt() {
    let mut block = vec![0u8; 30];
    put16(&mut block, 8, 24);
    put16(&mut block, 20, 40);
    assert!(matches!(DirCollection::new(&block), Err(Errno::EUCLEAN)));
    assert!(matches!(DirCollection::new(&[0u8; 5]), Err(Errno::EUCLEAN)));
    put16(&mut block, 20, 26);
    block[26..29].copy_from_slice(b"xyz");
    let c = DirCollection::new(&block).unwrap();
    assert_eq!(c.total(), 2);
    assert_eq!(c.entries[0].name.len(), 2);
    assert_eq!(c.entries[1].name, b"xyz".to_vec());
}

#[test]
fn flat_plain_mapping_is_contiguous() {
    let mut img = blank_image();
    compact_inode(&mut img, 3, 0, S_IFREG | 0o644, 2 * BLK as u32, 3);
    let fs = mount(img);
    let mut inodes = InodeCollection::new();
    let file = inodes.iget(3, &fs).unwrap();
    let first = fs.map(file, 0).unwrap();
    let last = fs.map(file, 2 * BLK as u64 - 1).unwrap();
    assert_eq!(first.map_type, MapType::Normal);
    assert_eq!(last.map_type, MapType::Normal);
    assert_eq!((first.physical.start, first.physical.len), (3 * BLK as u64, 2 * BLK as u64));
    assert_eq!((last.physical.start, last.physical.len), (5 * BLK as u64 - 1, 1));
    assert_eq!(first.logical.start, 0);
    assert_eq!(last.logical.start, 2 * BLK as u64 - 1);
    assert_eq!(fs.map(file, 2 * BLK as u64).err(), Some(Errno::EUCLEAN));
}

#[test]
fn flat_inline_tail_maps_to_metadata() {
    let mut img = blank_image();
    compact_inode(&mut img, 2, 2, S_IFREG | 0o644, 5000, 4);
    let fs = mount(img);
    let mut inodes = InodeCollection::new();
    let file = inodes.iget(2, &fs).unwrap();
    let head = fs.map(file, 100).unwrap();
    assert_eq!(head.map_type, MapType::Normal);
    assert_eq!(head.physical.start, 4 * BLK as u64 + 100);
    assert_eq!(head.logical.len, 4096 - 100);
    let tail = fs.map(file, 4096).unwrap();
    assert_eq!(tail.map_type, MapType::Meta);
    assert_eq!(tail.physical.start, inode_pos(2) as u64 + 32);
    assert_eq!(tail.physical.len, 904);
    let end = fs.map(file, 4999).unwrap();
    assert_eq!(end.map_type, MapType::Meta);
    assert_eq!(end.physical.start, inode_pos(2) as u64 + 32 + 903);
}

fn chunked_image(index: bool, second: u32) -> Vec<u8> {
    let mut img = blank_image();
    let format: u32 = if index { 0x20 } else { 0 };
    compact_inode(&mut img, 4, 4, S_IFREG | 0o644, 2 * BLK as u32, format);
    let table = inode_pos(4) + 32;
    if index {
        put16(&mut img, table + 2, 1);
        put32(&mut img, table + 4, 5);
        put16(&mut img, table + 10, 3);
        put32(&mut img, table + 12, second);
    } else {
        put32(&mut img, table, 5);
        put32(&mut img, table + 4, second);
    }
    img
}

#[test]
fn chunk_index_maps_and_masks_device() {
    let fs = mount(chunked_image(true, 6));
    let mut inodes = InodeCollection::new();
    let file = inodes.iget(4, &fs).unwrap();
    let m = fs.map(file, 10).unwrap();
    assert_eq!(m.map_type, MapType::Normal);
    assert_eq!((m.logical.start, m.logical.len), (10, 4086));
    assert_eq!(m.physical.start, 5 * BLK as u64 + 10);
    assert_eq!(m.device_id, 0);
    let m = fs.map(file, 4096).unwrap();
    assert_eq!(m.physical.start, 6 * BLK as u64);
}

#[test]
fn chunk_hole_is_corrupt() {
    for index in [true, false] {
        let fs = mount(chunked_image(index, 0xFFFF_FFFF));
        let mut inodes = InodeCollection::new();
        let file = inodes.iget(4, &fs).unwrap();
        assert!(fs.map(file, 0).is_ok());
        assert_eq!(fs.map(file, 4096).err(), Some(Errno::EUCLEAN));
        assert_eq!(fs.map(file, 8191).err(), Some(Errno::EUCLEAN));
    }
}

#[test]
fn chunk_blkaddr_table_clips_to_file_end() {
    let mut img = chunked_image(false, 7);
    put32(&mut img, inode_pos(4) + 8, 5000);
    let fs = mount(img);
    let mut inodes = InodeCollection::new();
    let file = inodes.iget(4, &fs).unwrap();
    let m = fs.map(file, 4100).unwrap();
    assert_eq!((m.logical.start, m.logical.len), (4100, 900));
    assert_eq!(m.physical.start, 7 * BLK as u64 + 4);
}

#[test]
fn compressed_layout_is_not_mapped() {
    let mut img = blank_image();
    compact_inode(&mut img, 1, 1, S_IFREG | 0o644, 100, 3);
    let fs = mount(img);
    let mut inodes = InodeCollection::new();
    let file = inodes.iget(1, &fs).unwrap();
    assert_eq!(fs.map(file, 0).err(), Some(Errno::EOPNOTSUPP));
}

/// Writes an xattr entry at `at` and returns its padded length.
fn xattr_entry(img: &mut [u8], at: usize, index: u8, suffix: &[u8], value: &[u8]) -> usize {
    img[at] = suffix.len() as u8;
    img[at + 1] = index;
    put16(img, at + 2, value.len() as u16);
    img[at + 4..at + 4 + suffix.len()].copy_from_slice(suffix);
    let v = at + 4 + suffix.len();
    img[v..v + value.len()].copy_from_slice(value);
    (4 + suffix.len() + value.len() + 3) / 4 * 4
}

/// Inode 6: extended, with one inline entry user.test=abc and `shared` shared indices.
fn xattr_image(shared: &[u32]) -> Vec<u8> {
    let mut img = blank_image();
    let inline_len = 12;
    let icount = 1 + shared.len() as u16 + inline_len as u16 / 4;
    extended_inode(&mut img, 6, 0, S_IFREG | 0o644, 0, 0, icount);
    let summary = inode_pos(6) + 64;
    img[summary + 4] = shared.len() as u8;
    for (i, idx) in shared.iter().enumerate() {
        put32(&mut img, summary + 12 + 4 * i, *idx);
    }
    let inline = summary + 12 + 4 * shared.len();
    assert_eq!(xattr_entry(&mut img, inline, 1, b"test", b"abc"), inline_len);
    img
}

#[test]
fn get_xattr_finds_inline_entry() {
    let fs = mount(xattr_image(&[]));
    let mut inodes = InodeCollection::new();
    let inode = inodes.iget(6, &fs).unwrap();
    let mut buffer = Some(vec![0u8; 16]);
    match fs.get_xattr(inode, 1, b"test", &mut buffer) {
        Ok(XAttrValue::Buffer(n)) => assert_eq!(n, 3),
        other => panic!("unexpected {:?}", other),
    }
    assert_eq!(&buffer.unwrap()[..3], b"abc");
    let mut none = None;
    match fs.get_xattr(inode, 1, b"test", &mut none) {
        Ok(XAttrValue::Vec(v)) => assert_eq!(v, b"abc".to_vec()),
        other => panic!("unexpected {:?}", other),
    }
    assert_eq!(fs.get_xattr(inode, 1, b"nope", &mut None).err(), Some(Errno::ENODATA));
    assert_eq!(fs.get_xattr(inode, 4, b"test", &mut None).err(), Some(Errno::ENODATA));
    let mut small = Some(vec![0u8; 2]);
    assert_eq!(fs.get_xattr(inode, 1, b"test", &mut small).err(), Some(Errno::ERANGE));
}

#[test]
fn get_xattr_falls_back_to_shared_entries() {
    let mut img = xattr_image(&[3]);
    let pool = XATTR_BLK as usize * BLK;
    xattr_entry(&mut img, pool + 12, 4, b"x", b"1");
    let fs = mount(img);
    let mut inodes = InodeCollection::new();
    let inode = inodes.iget(6, &fs).unwrap();
    assert_eq!(inode.xattrs_shared_entries().shared_indexes, vec![3]);
    match fs.get_xattr(inode, 4, b"x", &mut None) {
        Ok(XAttrValue::Vec(v)) => assert_eq!(v, b"1".to_vec()),
        other => panic!("unexpected {:?}", other),
    }
    match fs.get_xattr(inode, 1, b"test", &mut None) {
        Ok(XAttrValue::Vec(v)) => assert_eq!(v, b"abc".to_vec()),
        other => panic!("unexpected {:?}", other),
    }
}

#[test]
fn list_xattrs_writes_every_name() {
    let mut img = xattr_image(&[3]);
    let pool = XATTR_BLK as usize * BLK;
    xattr_entry(&mut img, pool + 12, 4, b"x", b"1");
    let fs = mount(img);
    let mut inodes = InodeCollection::new();
    let inode = inodes.iget(6, &fs).unwrap();
    let mut buffer = vec![0u8; 64];
    let n = fs.list_xattrs(inode, &mut buffer).unwrap();
    let expected = b"user.test\0trusted.x\0";
    assert_eq!(n, expected.len());
    assert_eq!(n, "user.test".len() + 1 + "trusted.x".len() + 1);
    assert_eq!(&buffer[..n], expected);
    let mut small = vec![0u8; 10];
    assert_eq!(fs.list_xattrs(inode, &mut small).err(), Some(Errno::ERANGE));
}

#[test]
fn long_prefix_names_resolve_through_infixes() {
    let mut img = blank_image();
    let table = 13 * BLK;
    img[1024 + 91] = 1;
    put32(&mut img, 1024 + 92, table as u32);
    put16(&mut img, table, 5);
    img[table + 2] = 1;
    img[table + 3..table + 7].copy_from_slice(b"foo.");
    extended_inode(&mut img, 6, 0, S_IFREG | 0o644, 0, 0, 1 + 3);
    let inline = inode_pos(6) + 64 + 12;
    xattr_entry(&mut img, inline, 0x80, b"bar", b"zz");
    let fs = mount(img);
    assert_eq!(fs.xattr_infixes().len(), 1);
    assert_eq!(fs.xattr_infixes()[0].prefix_index(), 1);
    assert_eq!(fs.xattr_infixes()[0].name(), b"foo.");
    let mut inodes = InodeCollection::new();
    let inode = inodes.iget(6, &fs).unwrap();
    match fs.get_xattr(inode, 1, b"foo.bar", &mut None) {
        Ok(XAttrValue::Vec(v)) => assert_eq!(v, b"zz".to_vec()),
        other => panic!("unexpected {:?}", other),
    }
    let mut buffer = vec![0u8; 32];
    let n = fs.list_xattrs(inode, &mut buffer).unwrap();
    assert_eq!(&buffer[..n], b"user.foo.bar\0");
}

#[test]
fn device_table_sets_the_mask() {
    let mut img = chunked_image(true, 6);
    img[1024 + 86] = 2;
    put16(&mut img, 1024 + 88, 112);
    let slot = 112 * 128;
    put32(&mut img, slot + 64, 77);
    put32(&mut img, slot + 128 + 64, 88);
    let fs = mount(img);
    assert_eq!(fs.device_info().mask, 3);
    assert_eq!(fs.device_info().specs.len(), 2);
    assert_eq!(fs.device_info().specs[0].blocks, 77);
    assert_eq!(fs.device_info().specs[1].blocks, 88);
    assert_eq!(fs.device_info().specs[1].tags.len(), 64);
    let mut inodes = InodeCollection::new();
    let file = inodes.iget(4, &fs).unwrap();
    assert_eq!(fs.map(file, 0).unwrap().device_id, 1);
    assert_eq!(fs.map(file, 4096).unwrap().device_id, 3);
}

#[test]
fn errno_codes_are_negative_posix_values() {
    assert_eq!(Errno::EUCLEAN.code(), -117);
    assert_eq!(Errno::ENOENT.code(), -2);
    assert_eq!(Errno::ENODATA.code(), -61);
    assert_eq!(Errno::ERANGE.code(), -34);
    assert_eq!(Errno::EIO.code(), -5);
    assert_eq!(Errno::ENOMEM.code(), -12);
    assert_eq!(Errno::EOPNOTSUPP.code(), -95);
}

#[test]
fn reads_past_the_image_fail() {
    let fs = mount(blank_image());
    assert_eq!(fs.read_inode_info(1 << 20).err(), Some(Errno::EIO));
}

#[test]
fn xattr_size_query_reports_value_length() {
    let fs = mount(xattr_image(&[]));
    let mut inodes = InodeCollection::new();
    let inode = inodes.iget(6, &fs).unwrap();
    assert_eq!(fs.get_xattr_size(inode, 1, b"test"), Ok(3));
    assert_eq!(fs.get_xattr_size(inode, 1, b"other"), Err(Errno::ENODATA));
}

#[test]
fn continuous_iter_splits_at_block_boundaries() {
    let mut img = blank_image();
    for i in 0..16 {
        img[4090 + i] = i as u8 + 1;
    }
    let fs = mount(img);
    let mut it = fs.continuous_iter(4090, 16);
    let first = it.next().unwrap().unwrap();
    assert_eq!(first.content(), &[1u8, 2, 3, 4, 5, 6][..]);
    assert!(!it.eof());
    let second = it.next().unwrap().unwrap();
    assert_eq!(second.content().len(), 10);
    assert_eq!(second.content()[0], 7);
    assert!(it.eof());
    assert!(it.next().is_none());
    let mut skip = fs.continuous_iter(0, 100);
    skip.advance_off(60);
    assert_eq!((skip.offset, skip.len), (60, 40));
}

#[test]
fn mapped_iter_walks_directory_blocks() {
    let mut img = blank_image();
    dir_block(&mut img, 2 * BLK, &[(b".", 0, 2), (b"x", 3, 1)]);
    let len = dir_block(&mut img, 3 * BLK, &[(b"y", 4, 1)]);
    compact_inode(&mut img, 0, 0, S_IFDIR | 0o755, (BLK + len) as u32, 2);
    let fs = mount(img);
    let mut inodes = InodeCollection::new();
    let dir = inodes.iget(0, &fs).unwrap();
    let mut it = fs.mapped_iter(dir, 100);
    assert_eq!(it.pos, 0);
    let first = it.next().unwrap().unwrap();
    assert_eq!(first.len(), BLK);
    assert_eq!(DirCollection::new(&first).unwrap().total(), 2);
    let second = it.next().unwrap().unwrap();
    assert_eq!(second.len(), len);
    let c = DirCollection::new(&second).unwrap();
    assert_eq!(c.entries[0].name, b"y".to_vec());
    assert!(it.next().is_none());
    let mut src = fs.continuous_iter(2 * BLK as u64, 30);
    let buf = src.next().unwrap().unwrap();
    assert_eq!(buf.iter_dir().unwrap().total(), 2);
}

#[test]
fn unknown_layout_or_type_is_corrupt() {
    let mut img = blank_image();
    compact_inode(&mut img, 1, 5, S_IFREG | 0o644, 100, 3);
    compact_inode(&mut img, 2, 0, 0o030644, 100, 3);
    compact_inode(&mut img, 3, 0, S_IFREG | 0o644, 100, 3);
    let fs = mount(img);
    assert_eq!(fs.read_inode_info(1).err(), Some(Errno::EUCLEAN));
    assert_eq!(fs.read_inode_info(2).err(), Some(Errno::EUCLEAN));
    let ok = fs.read_inode_info(3).unwrap();
    assert!(check_record(ok).is_ok());
}

#[test]
fn chunk_entry_decoding_is_exact() {
    let fs = mount(chunked_image(true, 6));
    let mut inodes = InodeCollection::new();
    let file = inodes.iget(4, &fs).unwrap();
    let hole = [0u8, 0, 2, 0, 0xff, 0xff, 0xff, 0xff];
    assert_eq!(fs.chunk_map_entry(file, 0, &hole).err(), Some(Errno::EUCLEAN));
    let entry = [0u8, 0, 1, 0, 9, 0, 0, 0];
    let m = fs.chunk_map_entry(file, 5, &entry).unwrap();
    assert_eq!((m.physical.start, m.physical.len, m.device_id), (9 * BLK as u64 + 5, 4091, 0));
    let fs = mount(chunked_image(false, 6));
    let mut inodes = InodeCollection::new();
    let file = inodes.iget(4, &fs).unwrap();
    assert_eq!(fs.chunk_map_entry(file, 4096, &[0xff; 4]).err(), Some(Errno::EUCLEAN));
    let m = fs.chunk_map_entry(file, 4096, &[2, 0, 0, 0]).unwrap();
    assert_eq!((m.physical.start, m.physical.len), (2 * BLK as u64, 4096));
}

#[test]
fn directory_block_functions_are_exact() {
    let mut block = vec![0u8; 64];
    let len = dir_block(&mut block, 0, &[(b"a", 1, 1), (b"bb", 2, 1)]);
    let block = &block[..len];
    assert_eq!(find_in_block(block, b"bb"), Ok(Some(2)));
    assert_eq!(find_in_block(block, b"c"), Ok(None));
    assert_eq!(find_in_block(&[0u8; 4], b"a"), Err(Errno::EUCLEAN));
    let mut out = Vec::new();
    assert_eq!(list_block(block, 8192, 1, &mut out), Ok(()));
    assert_eq!(out.len(), 1);
    assert_eq!((out[0].0.name.clone(), out[0].1), (b"bb".to_vec(), 8192 + 24));
    assert_eq!(list_block(&[0u8; 4], 0, 0, &mut out), Err(Errno::EUCLEAN));
    assert_eq!(out.len(), 1);
}

#[test]
fn shared_summary_decoding_is_exact() {
    let fs = mount(xattr_image(&[7, 9]));
    let info = fs.read_inode_info(6).unwrap();
    let mut head = [0u8; 12];
    head[0] = 5;
    head[4] = 2;
    let summary = check_shared_summary(&info, &head).unwrap();
    assert_eq!((summary.name_filter, summary.shared_count), (5, 2));
    head[4] = 20;
    assert_eq!(check_shared_summary(&info, &head).err(), Some(Errno::EUCLEAN));
    let raw = [7u8, 0, 0, 0, 9, 1, 0, 0];
    let entries = decode_shared_indexes(&XAttrSharedEntrySummary { name_filter: 5, shared_count: 2 }, &raw);
    assert_eq!(entries.shared_indexes, vec![7, 265]);
    assert_eq!(entries.name_filter, 5);
}

#[test]
fn xattr_delivery_is_exact() {
    let mut none = None;
    match deliver_xattr(b"abc".to_vec(), &mut none) {
        Ok(XAttrValue::Vec(v)) => assert_eq!(v, b"abc".to_vec()),
        other => panic!("unexpected {:?}", other),
    }
    let mut small = Some(vec![9u8; 2]);
    assert_eq!(deliver_xattr(b"abc".to_vec(), &mut small).err(), Some(Errno::ERANGE));
    assert_eq!(small, Some(vec![9u8; 2]));
    let mut big = Some(vec![9u8; 5]);
    match deliver_xattr(b"abc".to_vec(), &mut big) {
        Ok(XAttrValue::Buffer(n)) => assert_eq!(n, 3),
        other => panic!("unexpected {:?}", other),
    }
    assert_eq!(big, Some(vec![b'a', b'b', b'c', 9, 9]));
    let mut buf = vec![7u8; 4];
    assert_eq!(write_keys(b"ab\0", &mut buf), Ok(3));
    assert_eq!(buf, vec![b'a', b'b', 0, 7]);
    assert_eq!(write_keys(b"abcdef", &mut buf), Err(Errno::ERANGE));
    assert_eq!(buf, vec![b'a', b'b', 0, 7]);
}

#[test]
fn inode_without_attributes_has_no_xattrs() {
    let fs = mount(dir_image());
    let mut inodes = InodeCollection::new();
    let inode = inodes.iget(1, &fs).unwrap();
    assert!(inode.xattrs_shared_entries().shared_indexes.is_empty());
    assert_eq!(fs.get_xattr(inode, 1, b"x", &mut None).err(), Some(Errno::ENODATA));
    let mut buffer = vec![3u8; 4];
    assert_eq!(fs.list_xattrs(inode, &mut buffer), Ok(0));
    assert_eq!(buffer, vec![3u8; 4]);
}

#[test]
fn infix_head_decoding_is_exact() {
    assert_eq!(decode_infix_head(100, &[5, 0]), Ok((5, 108)));
    assert_eq!(decode_infix_head(100, &[2, 0]), Ok((2, 104)));
    assert_eq!(decode_infix_head(100, &[0, 0]), Err(Errno::EUCLEAN));
    assert_eq!(decode_infix_head(u64::MAX - 3, &[5, 0]), Err(Errno::EUCLEAN));
}
