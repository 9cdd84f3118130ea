use std::io::{Cursor, Write};

use halycon::block::{BlockDevice, BlockDeviceError, MemBlk, SECTOR_SIZE};
use halycon::fat32::{
    fat32_init, get_short_file_name, BiosParameterBlock, DirEntry, Fat32, FatError,
    PartitionTableEntry,
};

const TEST_TEXT: &str = "The process of analyzing a FAT32 file system using a hex editor requires a deep understanding of how data is structured across sectors and clusters. This specific paragraph is designed to exceed the standard sector size of 512 bytes, ensuring that your read test can verify whether the file system driver or your manual parsing logic correctly handles data that spans across multiple sectors. When you examine this file in a hex dump, you should notice that the text continues past the first 0x200 bytes offset. If the file is stored in cluster 2, for example, you can calculate its physical location by identifying the start of the data region. Remember that in FAT32, the root directory is no longer at a fixed location but is treated as a cluster chain. This provides more flexibility compared to older FAT versions. By reading this entire passage successfully, you confirm that your environment can handle basic file I/O operations and that your offset calculations from the MBR to the BPB, and finally to the data area, are accurate.";

/// A 64 MiB disk: an MBR whose first partition (type 0x1c, from LBA 1)
/// holds a FAT32 volume with TEST1.TXT .. TEST4.TXT in its root directory.
fn build_image() -> Vec<u8> {
    let disk_size = 1024 * 1024 * 64;
    let mut data = vec![0u8; disk_size];
    {
        let mut cur = Cursor::new(&mut data[..]);
        let mut mbr = mbrman::MBR::new_from(&mut cur, SECTOR_SIZE as u32, [0xff; 4])
            .expect("could not create partition table");
        mbr[1] = mbrman::MBRPartitionEntry {
            boot: mbrman::BOOT_ACTIVE,
            first_chs: mbrman::CHS::empty(),
            sys: 0x1c,
            last_chs: mbrman::CHS::empty(),
            starting_lba: 1,
            sectors: mbr.disk_size - 1,
        };
        mbr.write_into(&mut cur).expect("could not write partition table");
    }
    {
        let mut cur = Cursor::new(&mut data[SECTOR_SIZE..]);
        fatfs::format_volume(
            &mut cur,
            fatfs::FormatVolumeOptions::new().fat_type(fatfs::FatType::Fat32),
        )
        .expect("could not format volume");
        cur.set_position(0);
        let fs = fatfs::FileSystem::new(cur, fatfs::FsOptions::new().update_accessed_date(false))
            .expect("could not open volume");
        let root = fs.root_dir();
        for i in 1..5 {
            let mut file = root
                .create_file(&format!("TEST{}.TXT", i))
                .expect("could not create file");
            file.write_all(TEST_TEXT.as_bytes()).expect("could not write file");
        }
    }
    data
}

fn get_volume() -> Fat32<MemBlk> {
    let device = MemBlk { data: build_image() };
    match fat32_init(device) {
        Ok(fs) => fs,
        Err(()) => panic!("Failed to init fat32"),
    }
}

fn string_of(s: &str) -> String {
    s.to_string()
}

#[test]
fn test_cluster_to_sector() {
    let fs = get_volume();

    let data_start_sector = fs.bpb.reserved_sectors_count as usize
        + (fs.bpb.fat_number as usize * fs.bpb.fat_size_32 as usize);

    let cluster_2_sector = fs.cluster_to_sector(2);
    assert_eq!(cluster_2_sector, data_start_sector, "Cluster 2 should match data start sector");

    let cluster_3_sector = fs.cluster_to_sector(3);
    let expected_cluster_3 = data_start_sector + fs.bpb.sectors_per_cluster as usize;
    assert_eq!(
        cluster_3_sector, expected_cluster_3,
        "Cluster 3 should be 1 cluster size away from Cluster 2"
    );
}

#[test]
fn test_list_root_files() {
    let mut fs = get_volume();

    let files = fs.list_root_files().ok().expect("Failed to get file list");

    assert_eq!(files[0], "TEST1.TXT");
    assert_eq!(files[1], "TEST2.TXT");
    assert_eq!(files[2], "TEST3.TXT");
    assert_eq!(files[3], "TEST4.TXT");
}

#[test]
fn test_read_file() {
    let mut fs = get_volume();

    let files = fs.list_root_files().ok().expect("Failed to get file list");

    let mut buf = [0u8; SECTOR_SIZE * 8];
    fs.read_file(&files[0], &mut buf).ok().expect("Failed to read file");

    let test_str = TEST_TEXT.as_bytes();
    let mut test_buf = [0u8; 4096];
    let len = test_str.len().min(4096);
    test_buf[..len].copy_from_slice(&test_str[..len]);
    assert_eq!(buf, test_buf);
}

#[test]
fn test_out_of_buffer() {
    let mut fs = get_volume();

    let files = fs.list_root_files().ok().expect("Failed to get file list");

    let size = fs.get_file_size(&files[0]).ok().expect("Failed to get file size");
    let mut buf = vec![0u8; size - 1];
    assert!(matches!(fs.read_file(&files[0], &mut buf), Err(FatError::OutOfBuffer)));
}

#[test]
fn file_size_matches_written_text() {
    let mut fs = get_volume();
    for name in ["TEST1.TXT", "TEST2.TXT", "TEST3.TXT", "TEST4.TXT"] {
        let size = fs.get_file_size(&string_of(name)).ok().expect("file size");
        assert_eq!(size, TEST_TEXT.len());
    }
}

#[test]
fn read_file_returns_size_and_each_file() {
    let mut fs = get_volume();
    let mut buf = vec![0u8; 2048];
    let n = fs.read_file(&string_of("TEST4.TXT"), &mut buf).ok().expect("read");
    assert_eq!(n, TEST_TEXT.len());
    assert_eq!(&buf[..n], TEST_TEXT.as_bytes());
}

#[test]
fn missing_file_is_reported() {
    let mut fs = get_volume();
    let mut buf = vec![0u8; 2048];
    assert!(matches!(
        fs.read_file(&string_of("NOPE.TXT"), &mut buf),
        Err(FatError::NoSuchFileOrDirectory)
    ));
    assert!(matches!(
        fs.get_file_size(&string_of("test1.txt")),
        Err(FatError::NoSuchFileOrDirectory)
    ));
}

#[test]
fn buffer_too_small_for_last_cluster_breaks_chain() {
    let mut fs = get_volume();
    // Large enough for the file, too small for its second whole cluster.
    let mut buf = vec![0u8; TEST_TEXT.len()];
    assert!(matches!(
        fs.read_file(&string_of("TEST1.TXT"), &mut buf),
        Err(FatError::BrokenClusterChain)
    ));
}

#[test]
fn volume_geometry_is_read_from_the_boot_sector() {
    let fs = get_volume();
    assert_eq!(fs.volume_start_sector, 1);
    assert_eq!(fs.bpb.bytes_per_sector, 512);
    assert_eq!(fs.bpb.sectors_per_cluster, 1);
    assert_eq!(fs.bpb.root_cluster, 2);
    assert_eq!(fs.bpb.fat_number, 2);
    assert_eq!(fs.fat.len(), fs.bpb.fat_size_32 as usize * 512 / 4);
    // The root directory is a one-cluster chain.
    assert!(fs.fat[2] >= 0x0FFF_FFF8);
}

#[test]
fn directory_entries_of_root_cluster() {
    let mut fs = get_volume();
    let entries = fs.get_directory_entries(2).ok().expect("entries");
    assert_eq!(entries.len(), 512 / 32);
    // Each file has a long-name entry in front of its short entry.
    assert_eq!(entries[0].attributes, 0x0F);
    assert_eq!(&entries[1].name, b"TEST1   ");
    assert_eq!(&entries[1].ext, b"TXT");
    assert_eq!(entries[1].file_size as usize, TEST_TEXT.len());
    assert_eq!(entries[8].name[0], 0);
}

#[test]
fn next_cluster_follows_the_fat() {
    let mut fs = get_volume();
    let entries = fs.get_directory_entries(2).ok().expect("entries");
    let first = ((entries[1].first_cluster_high as u32) << 16) | entries[1].first_cluster_low as u32;
    // The text takes three 512-byte clusters, allocated one after the other.
    let second = fs.get_next_cluster(first);
    assert_eq!(second, first + 1);
    let third = fs.get_next_cluster(second);
    assert_eq!(third, first + 2);
    assert!(fs.get_next_cluster(third) >= 0x0FFF_FFF8);
}

#[test]
fn no_fat32_partition_fails_init() {
    let device = MemBlk { data: vec![0u8; 4096] };
    assert!(fat32_init(device).is_err());
}

#[test]
fn unreadable_disk_fails_init() {
    let device = MemBlk { data: vec![0u8; 100] };
    assert!(fat32_init(device).is_err());
}

#[test]
fn device_error_is_passed_on() {
    let device = MemBlk { data: vec![0u8; 512] };
    match Fat32::new(device, 5) {
        Err(FatError::DeviceError(e)) => assert!(e == BlockDeviceError::IOError),
        _ => panic!("expected a device error"),
    }
}

#[test]
fn short_file_names() {
    assert_eq!(get_short_file_name(b"TEST1   ", b"TXT"), "TEST1.TXT");
    assert_eq!(get_short_file_name(b"README  ", b"   "), "README");
    assert_eq!(get_short_file_name(b"A B     ", b"C  "), "A B.C");
    // Bytes that are not UTF-8 become the replacement character.
    assert_eq!(get_short_file_name(b"\xffBAD    ", b"   "), "\u{fffd}BAD");
}

#[test]
fn partition_entry_and_parameter_block_parse() {
    let mut sector = [0u8; 512];
    sector[446] = 0x80;
    sector[446 + 4] = 0x1c;
    sector[446 + 8..446 + 12].copy_from_slice(&2048u32.to_le_bytes());
    sector[446 + 12..446 + 16].copy_from_slice(&4096u32.to_le_bytes());
    let entry = PartitionTableEntry::parse(&sector, 446);
    assert_eq!(entry.bootflag, 0x80);
    assert_eq!(entry.partition_type, 0x1c);
    assert_eq!(entry.lba_partition_start, 2048);
    assert_eq!(entry.sector_number, 4096);

    let mut boot = [0u8; 512];
    boot[11..13].copy_from_slice(&512u16.to_le_bytes());
    boot[13] = 8;
    boot[14..16].copy_from_slice(&32u16.to_le_bytes());
    boot[16] = 2;
    boot[36..40].copy_from_slice(&1000u32.to_le_bytes());
    boot[44..48].copy_from_slice(&2u32.to_le_bytes());
    let bpb = BiosParameterBlock::parse(&boot);
    assert_eq!(bpb.bytes_per_sector, 512);
    assert_eq!(bpb.sectors_per_cluster, 8);
    assert_eq!(bpb.reserved_sectors_count, 32);
    assert_eq!(bpb.fat_number, 2);
    assert_eq!(bpb.fat_size_32, 1000);
    assert_eq!(bpb.root_cluster, 2);
    let empty = BiosParameterBlock::new();
    assert_eq!(empty.bytes_per_sector, 0);
}

#[test]
fn dir_entry_parse_reads_little_endian_fields() {
    let mut b = [0u8; 64];
    b[32..40].copy_from_slice(b"HELLO   ");
    b[40..43].copy_from_slice(b"BIN");
    b[43] = 0x20;
    b[52..54].copy_from_slice(&0x0001u16.to_le_bytes());
    b[58..60].copy_from_slice(&0x0203u16.to_le_bytes());
    b[60..64].copy_from_slice(&123456u32.to_le_bytes());
    let e = DirEntry::parse(&b, 32);
    assert_eq!(&e.name, b"HELLO   ");
    assert_eq!(&e.ext, b"BIN");
    assert_eq!(e.attributes, 0x20);
    assert_eq!(e.first_cluster_high, 1);
    assert_eq!(e.first_cluster_low, 0x0203);
    assert_eq!(e.file_size, 123456);
}

#[test]
fn fat_errors_have_messages() {
    assert_eq!(FatError::NoSuchFileOrDirectory.as_str(), "No such file or directory.");
    assert_eq!(FatError::OutOfBuffer.as_str(), "Buffer too small.");
    assert_eq!(FatError::DeviceError(BlockDeviceError::IOError).as_str(), "block device error");
}

#[test]
fn mem_blk_reads_and_writes_sectors() {
    let mut d = MemBlk::new(&[0u8; 2048]);
    assert_eq!(d.get_capacity(), 4);
    let mut buf = [0x5Au8; 1024];
    assert!(d.read_write_disk(&mut buf, 1, 2, true).is_ok());
    let mut back = [0u8; 1024];
    assert!(d.read_write_disk(&mut back, 1, 2, false).is_ok());
    assert_eq!(back, [0x5Au8; 1024]);
    let mut first = [1u8; 512];
    assert!(d.read_write_disk(&mut first, 0, 1, false).is_ok());
    assert_eq!(first, [0u8; 512]);
    assert!(d.read_write_disk(&mut back, 3, 2, false).is_err());
}
