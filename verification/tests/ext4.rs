use monkeyos::ext4_disk::{DiskSegment, Ext4DiskWrapper};
use monkeyos::ext4_file::{
    ext4_statfs, map_ext4_type, path_deal_with, stat_mode_of, writeat_gap, zero_fill_chunks,
    FileType, GapFill, InodeTypes, StatMode,
};
use monkeyos::ext4_file::{dirent_name, read_dir_entries};

#[test]
fn transfer_splits_into_head_body_and_tail() {
    let mut d = Ext4DiskWrapper::new(1);
    d.set_position(100);
    assert_eq!(d.position(), 100);
    let segs = d.plan_transfer(1000);
    assert_eq!(segs.len(), 3);
    assert!(matches!(segs[0], DiskSegment::Partial { block: 0, offset: 100, len: 412, buf_start: 0 }));
    assert!(matches!(segs[1], DiskSegment::Full { block: 1, count: 1, buf_start: 412 }));
    assert!(matches!(segs[2], DiskSegment::Partial { block: 2, offset: 0, len: 76, buf_start: 924 }));
    assert_eq!(d.position(), 1100);
    assert_eq!(d.block_id, 2);
    assert_eq!(d.offset, 76);
}

#[test]
fn aligned_transfer_has_only_whole_sectors() {
    let mut d = Ext4DiskWrapper::new(0);
    d.set_position(1024);
    let segs = d.plan_transfer(2048);
    assert_eq!(segs.len(), 1);
    assert!(matches!(segs[0], DiskSegment::Full { block: 2, count: 4, buf_start: 0 }));
    assert_eq!(d.position(), 3072);
    // a short transfer inside one sector
    let segs = d.plan_transfer(10);
    assert_eq!(segs.len(), 1);
    assert!(matches!(segs[0], DiskSegment::Partial { block: 6, offset: 0, len: 10, buf_start: 0 }));
    assert_eq!(d.position(), 3082);
    // inside a sector even an empty transfer reads that sector
    let segs = d.plan_transfer(0);
    assert_eq!(segs.len(), 1);
    assert!(matches!(segs[0], DiskSegment::Partial { block: 6, offset: 10, len: 0, buf_start: 0 }));
    let mut e = Ext4DiskWrapper::new(0);
    assert_eq!(e.plan_transfer(0).len(), 0);
}

#[test]
fn seek_moves_the_cursor() {
    let mut d = Ext4DiskWrapper::new(0);
    assert_eq!(d.seek(10, 0, 4096), Ok(10));
    assert_eq!(d.position(), 10);
    assert_eq!(d.seek(5, 1, 4096), Ok(15));
    assert_eq!(d.seek(-20, 1, 4096), Err(-1));
    assert_eq!(d.position(), 15);
    assert_eq!(d.seek(-100, 2, 4096), Ok(3996));
    assert_eq!(d.position(), 3996);
    assert_eq!(d.seek(-5000, 2, 4096), Err(-1));
    assert_eq!(d.seek(7, 9, 4096), Ok(7));
}

#[test]
fn names_become_absolute_paths() {
    assert_eq!(path_deal_with(b"/mnt/", b"./a//b/"), b"/mnt/a/b".to_vec());
    assert_eq!(path_deal_with(b"/", b"x"), b"/x".to_vec());
    assert_eq!(path_deal_with(b"/dir", b"/etc/passwd"), b"/dir/etc/passwd".to_vec());
    assert_eq!(path_deal_with(b"/dir", b"a///b"), b"/dir/a/b".to_vec());
    assert_eq!(path_deal_with(b"/dir", b"././c"), b"/dir/c".to_vec());
    assert!(path_deal_with(b"/", b".").is_empty());
    assert!(path_deal_with(b"/dir", b"///").is_empty());
    assert!(path_deal_with(b"/dir", b"").is_empty());
    assert!(path_deal_with(b"/dir", b"./").is_empty());
}

#[test]
fn gaps_are_zero_filled_or_truncated() {
    assert!(writeat_gap(10, 20) == GapFill::NoGap);
    assert!(writeat_gap(20, 20) == GapFill::NoGap);
    assert!(writeat_gap(30, 20) == GapFill::Zeros { from: 20, len: 10 });
    assert!(writeat_gap((1 << 20) + 20, 20) == GapFill::Zeros { from: 20, len: 1 << 20 });
    assert!(writeat_gap((1 << 20) + 21, 20) == GapFill::Extend { to: (1 << 20) + 21 });
    assert_eq!(zero_fill_chunks(0), Vec::<usize>::new());
    assert_eq!(zero_fill_chunks(100), vec![100]);
    assert_eq!(zero_fill_chunks(65536), vec![65536]);
    assert_eq!(zero_fill_chunks(150000), vec![65536, 65536, 18928]);
}

#[test]
fn inode_types_and_statfs() {
    assert_eq!(map_ext4_type(InodeTypes::EXT4_DE_DIR), FileType::Directory);
    assert_eq!(map_ext4_type(InodeTypes::EXT4_DE_FIFO), FileType::Device);
    assert_eq!(map_ext4_type(InodeTypes::EXT4_DE_UNKNOWN), FileType::File);
    assert_eq!(map_ext4_type(InodeTypes::EXT4_DE_SYMLINK), FileType::Link);
    assert_eq!(map_ext4_type(InodeTypes::EXT4_DE_SOCK), FileType::Socket);
    assert_eq!(stat_mode_of(InodeTypes::EXT4_DE_BLKDEV), StatMode::BLOCK);
    assert_eq!(stat_mode_of(InodeTypes::EXT4_DE_REG_FILE), StatMode::FILE);
    let st = ext4_statfs();
    assert_eq!(st.bsize, 512);
    assert_eq!(st.blocks, 80);
    assert_eq!(st.namelen, 20);
}

#[test]
fn directory_entry_names() {
    assert_eq!(dirent_name(b"bin\0"), Some(b"bin".to_vec()));
    assert_eq!(dirent_name(b"\0"), Some(Vec::new()));
    assert_eq!(dirent_name(b"bin"), None);
    assert_eq!(dirent_name(b"b\0n\0"), None);
    assert_eq!(dirent_name(&[0xff, 0xfe, 0]), None);
    assert_eq!(dirent_name(b""), None);
    let names = vec![b".\0".to_vec(), b"etc\0".to_vec(), b"sh\0".to_vec()];
    let types = [InodeTypes::EXT4_DE_DIR, InodeTypes::EXT4_DE_DIR, InodeTypes::EXT4_DE_SYMLINK];
    assert_eq!(
        read_dir_entries(&names, &types),
        Some(vec![
            (b".".to_vec(), FileType::Directory),
            (b"etc".to_vec(), FileType::Directory),
            (b"sh".to_vec(), FileType::Link),
        ])
    );
    assert_eq!(
        read_dir_entries(&names, &types[..1]),
        Some(vec![(b".".to_vec(), FileType::Directory)])
    );
    let bad = vec![b"ok\0".to_vec(), b"no".to_vec()];
    assert_eq!(read_dir_entries(&bad, &types[..2]), None);
}

#[test]
fn directory_names_must_be_well_formed_utf8() {
    assert_eq!(dirent_name(&[0xc3, 0xa9, 0]), Some(vec![0xc3, 0xa9]));
    assert_eq!(dirent_name(&[0xf0, 0x9f, 0x98, 0x80, 0]), Some(vec![0xf0, 0x9f, 0x98, 0x80]));
    assert_eq!(dirent_name(&[0xc0, 0x80, 0]), None);
    assert_eq!(dirent_name(&[0xed, 0xa0, 0x80, 0]), None);
    assert_eq!(dirent_name(&[0xf4, 0x90, 0x80, 0x80, 0]), None);
    assert_eq!(dirent_name(&[0xe2, 0x82, 0]), None);
}
