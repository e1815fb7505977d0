use fat16_reader::content::{escape_bytes, file_content};
use fat16_reader::dir::{ls_entry, DirEntry};
use fat16_reader::fat::{BootRecord, Fat16Img, FatError, ENTRY_BUF_SIZE};
use fat16_reader::scan::{first_archived, scan_root_dir};

const BPS: usize = 512;
const FAT_OFF: usize = 512;
const ROOT_OFF: usize = 1024;
const DATA_OFF: usize = 1536;

fn put16(img: &mut Vec<u8>, off: usize, v: u16) {
    img[off] = (v & 0xFF) as u8;
    img[off + 1] = (v >> 8) as u8;
}

fn put32(img: &mut Vec<u8>, off: usize, v: u32) {
    for i in 0..4 {
        img[off + i] = (v >> (8 * i)) as u8;
    }
}

fn boot(img: &mut Vec<u8>, bps: u16, spc: u8, reserved: u16, fats: u8, rde: u16, spf: u16) {
    img[0] = 0xEB;
    img[1] = 0x3C;
    img[2] = 0x90;
    put16(img, 11, bps);
    img[13] = spc;
    put16(img, 14, reserved);
    img[16] = fats;
    put16(img, 17, rde);
    put16(img, 22, spf);
}

/// An image of one reserved sector, one FAT sector, a one-sector root
/// directory of 16 slots and `clusters` data clusters of one sector each.
fn small_image(clusters: usize) -> Vec<u8> {
    let mut img = vec![0u8; DATA_OFF + clusters * BPS];
    boot(&mut img, 512, 1, 1, 1, 16, 1);
    img
}

fn put_entry(img: &mut Vec<u8>, slot: usize, name11: &[u8; 11], attr: u8, cluster: u16, size: u32) {
    let off = ROOT_OFF + 32 * slot;
    img[off..off + 11].copy_from_slice(name11);
    img[off + 11] = attr;
    put16(img, off + 26, cluster);
    put32(img, off + 28, size);
}

fn set_fat(img: &mut Vec<u8>, cluster: u16, next: u16) {
    put16(img, FAT_OFF + 2 * cluster as usize, next);
}

fn put_cluster(img: &mut Vec<u8>, cluster: u16, data: &[u8]) {
    let off = DATA_OFF + (cluster as usize - 2) * BPS;
    img[off..off + data.len()].copy_from_slice(data);
}

fn names(entries: &[DirEntry]) -> Vec<Vec<u8>> {
    entries.iter().map(|e| e.display_name()).collect()
}

#[test]
fn geometry_offsets_follow_the_boot_sector() {
    let mut img = vec![0u8; 64];
    boot(&mut img, 512, 4, 2, 2, 17, 9);
    let br = BootRecord::parse(&img).unwrap();
    assert_eq!(br.cluster_size(), 2048);
    assert_eq!(br.fat_table_offset(), 1024);
    assert_eq!(br.root_dir_offset(), (2 + 2 * 9) * 512);
    // 17 slots of 32 bytes need 544 bytes: two sectors, rounded up.
    assert_eq!(br.root_dir_sectors(), 2);
    assert_eq!(br.data_region_offset(), br.root_dir_offset() + 2 * 512);
}

#[test]
fn data_region_offset_with_exact_root_dir() {
    let mut img = vec![0u8; 64];
    boot(&mut img, 512, 1, 1, 2, 512, 200);
    let br = BootRecord::parse(&img).unwrap();
    assert_eq!(br.root_dir_sectors(), 32);
    assert_eq!(br.root_dir_offset(), (1 + 400) * 512);
    assert_eq!(br.data_region_offset(), (1 + 400 + 32) * 512);
}

#[test]
fn short_boot_sector_is_a_format_error() {
    let img = vec![0u8; 35];
    assert!(matches!(Fat16Img::new(img), Err(FatError::ImageFormat)));
    assert!(matches!(BootRecord::parse(&[]), Err(FatError::ImageFormat)));
}

#[test]
fn zero_bytes_per_sector_is_a_format_error() {
    let mut img = vec![0u8; 64];
    boot(&mut img, 0, 1, 1, 1, 16, 1);
    assert!(matches!(Fat16Img::new(img), Err(FatError::ImageFormat)));
}

#[test]
fn zero_sectors_per_cluster_is_a_format_error() {
    let mut img = vec![0u8; 64];
    boot(&mut img, 512, 0, 1, 1, 16, 1);
    assert!(matches!(Fat16Img::new(img), Err(FatError::ImageFormat)));
}

#[test]
fn smallest_boot_sector_is_accepted() {
    let mut img = vec![0u8; 36];
    boot(&mut img, 512, 1, 1, 1, 16, 1);
    let f = Fat16Img::new(img).unwrap();
    assert_eq!(f.root_dir_entries(), 16);
}

#[test]
fn fat_chain_walk_stops_at_end_marker() {
    let mut img = small_image(4);
    set_fat(&mut img, 2, 3);
    set_fat(&mut img, 3, 4);
    set_fat(&mut img, 4, 0xFFFF);
    let f = Fat16Img::new(img).unwrap();
    let mut walked = vec![2u16];
    let mut c = 2u16;
    loop {
        c = f.next_cluster(c).unwrap();
        if c >= 0xFFF8 {
            break;
        }
        walked.push(c);
    }
    assert_eq!(walked, vec![2, 3, 4]);
    assert_eq!(f.next_cluster(4).unwrap(), 0xFFFF);
}

#[test]
fn fat_lookup_past_the_image_is_an_io_error() {
    let mut img = vec![0u8; 600];
    boot(&mut img, 512, 1, 1, 1, 16, 1);
    let f = Fat16Img::new(img).unwrap();
    // FAT slot 43 sits at 512 + 86 = 598 and fits; slot 44 does not.
    assert!(f.next_cluster(43).is_ok());
    assert!(matches!(f.next_cluster(44), Err(FatError::Io)));
}

#[test]
fn read_cluster_returns_its_bytes() {
    let mut img = small_image(2);
    put_cluster(&mut img, 3, b"abc");
    let f = Fat16Img::new(img).unwrap();
    let data = f.read_cluster(3).unwrap();
    assert_eq!(data.len(), 512);
    assert_eq!(&data[..4], b"abc\0");
    assert!(matches!(f.read_cluster(4), Err(FatError::Io)));
}

#[test]
fn read_dir_decodes_a_batch() {
    let mut img = small_image(1);
    put_entry(&mut img, 9, b"NINE    BIN", 0x20, 7, 99);
    let f = Fat16Img::new(img).unwrap();
    let batch = f.read_root_dir(8).unwrap();
    assert_eq!(batch.len(), ENTRY_BUF_SIZE);
    assert_eq!(&batch[1].name(), b"NINE    ");
    assert_eq!(batch[1].first_cluster(), 7);
    assert_eq!(batch[1].size(), 99);
    let same = f.read_dir(ROOT_OFF as u64, 8).unwrap();
    assert_eq!(same[1].size(), 99);
    assert!(matches!(f.read_dir(ROOT_OFF as u64, 1000), Err(FatError::Io)));
}

#[test]
fn root_scan_stops_at_free_slot() {
    let mut img = small_image(1);
    put_entry(&mut img, 0, b".          ", 0x10, 0, 0);
    put_entry(&mut img, 1, b"X          ", 0x20, 0, 0);
    // slot 2 stays zero: the first free slot
    put_entry(&mut img, 3, b"Y          ", 0x20, 0, 0);
    let f = Fat16Img::new(img).unwrap();
    let listed = scan_root_dir(&f).unwrap();
    assert_eq!(names(&listed), vec![b".".to_vec(), b"X".to_vec()]);
}

#[test]
fn deleted_and_long_name_entries_are_not_listed() {
    let mut img = small_image(1);
    put_entry(&mut img, 0, b"\xE5ONE    TXT", 0x20, 2, 1);
    put_entry(&mut img, 1, b"ALONGNAMEXX", 0x0F, 0, 0);
    put_entry(&mut img, 2, b"KEEP    TXT", 0x20, 2, 1);
    put_entry(&mut img, 3, b"LFNTOO     ", 0x3F, 0, 0);
    let f = Fat16Img::new(img).unwrap();
    let listed = scan_root_dir(&f).unwrap();
    assert_eq!(names(&listed), vec![b"KEEP.TXT".to_vec()]);
    for e in &listed {
        assert_ne!(e.name()[0], 0xE5);
        assert!(!e.attr_lfn());
    }
}

#[test]
fn root_scan_covers_every_declared_batch() {
    let mut img = vec![0u8; 1024 + 3 * 512];
    // 17 declared entries: three batches of eight are read
    boot(&mut img, 512, 1, 1, 1, 17, 1);
    for slot in 0..24 {
        let name = format!("F{:<7}TXT", slot);
        let mut n11 = [0u8; 11];
        n11.copy_from_slice(name.as_bytes());
        put_entry(&mut img, slot, &n11, 0x20, 0, 0);
    }
    let f = Fat16Img::new(img).unwrap();
    let listed = scan_root_dir(&f).unwrap();
    assert_eq!(listed.len(), 24);
    assert_eq!(listed[23].display_name(), b"F23.TXT".to_vec());
}

#[test]
fn root_scan_reads_one_batch_when_none_declared() {
    let mut img = small_image(1);
    put16(&mut img, 17, 0);
    for slot in 0..8 {
        put_entry(&mut img, slot, b"A          ", 0x20, 0, 0);
    }
    put_entry(&mut img, 8, b"B          ", 0x20, 0, 0);
    let f = Fat16Img::new(img).unwrap();
    let listed = scan_root_dir(&f).unwrap();
    assert_eq!(names(&listed), vec![b"A".to_vec(); 8]);
}

#[test]
fn root_scan_past_the_image_is_an_io_error() {
    let mut img = vec![0u8; ROOT_OFF + 200];
    boot(&mut img, 512, 1, 1, 1, 16, 1);
    let f = Fat16Img::new(img).unwrap();
    assert!(matches!(scan_root_dir(&f), Err(FatError::Io)));
}

#[test]
fn content_dump_of_hello() {
    let mut img = small_image(2);
    put_entry(&mut img, 0, b"HELLO   TXT", 0x20, 2, 5);
    set_fat(&mut img, 2, 0xFFFF);
    put_cluster(&mut img, 2, b"HELLO, world");
    let f = Fat16Img::new(img).unwrap();
    let listed = scan_root_dir(&f).unwrap();
    assert_eq!(listed.len(), 1);
    let line = ls_entry(listed[0]);
    assert!(!line.is_dir);
    assert_eq!(line.size, 5);
    assert_eq!(line.first_cluster, 0x0002);
    assert_eq!(line.name, b"HELLO.TXT".to_vec());
    let file = first_archived(&listed).unwrap();
    let content = file_content(&f, &file).unwrap();
    assert_eq!(content, b"HELLO".to_vec());
    assert_eq!(escape_bytes(&content), b"HELLO".to_vec());
}

#[test]
fn escaping_of_control_bytes() {
    assert_eq!(escape_bytes(&[0x41, 0x01, 0x0A, 0x42]), b"A\\01\nB".to_vec());
    let mut img = small_image(1);
    put_entry(&mut img, 0, b"BIN     DAT", 0x20, 2, 4);
    set_fat(&mut img, 2, 0xFFFF);
    put_cluster(&mut img, 2, &[0x41, 0x01, 0x0A, 0x42, 0x43]);
    let f = Fat16Img::new(img).unwrap();
    let file = first_archived(&scan_root_dir(&f).unwrap()).unwrap();
    let shown = escape_bytes(&file_content(&f, &file).unwrap());
    assert_eq!(String::from_utf8(shown).unwrap(), "A\\01\nB");
}

#[test]
fn escaping_of_high_and_delete_bytes() {
    assert_eq!(escape_bytes(&[0xFF, 0x7F, 0x20, 0x09, 0x0D, 0x0B, 0x7E]), b"\\FF\\7F \t\r\\0B~".to_vec());
    assert_eq!(escape_bytes(&[]), Vec::<u8>::new());
}

#[test]
fn content_follows_the_chain_across_clusters() {
    let mut img = small_image(4);
    put_entry(&mut img, 0, b"BIG     TXT", 0x20, 2, 700);
    set_fat(&mut img, 2, 5);
    set_fat(&mut img, 5, 0xFFF8);
    put_cluster(&mut img, 2, &[b'a'; 512]);
    put_cluster(&mut img, 5, &[b'b'; 512]);
    let f = Fat16Img::new(img).unwrap();
    let file = first_archived(&scan_root_dir(&f).unwrap()).unwrap();
    let content = file_content(&f, &file).unwrap();
    assert_eq!(content.len(), 700);
    assert!(content[..512].iter().all(|&b| b == b'a'));
    assert!(content[512..].iter().all(|&b| b == b'b'));
}

#[test]
fn content_stops_without_reading_past_the_declared_size() {
    // The file fills cluster 2 exactly; its FAT slot lies past the image, and
    // is never needed.
    let mut img = vec![0u8; DATA_OFF + BPS];
    boot(&mut img, 512, 1, 1, 1, 16, 1);
    put_entry(&mut img, 0, b"FULL    TXT", 0x20, 2, 512);
    put_cluster(&mut img, 2, &[b'z'; 512]);
    let f = Fat16Img::new(img).unwrap();
    let file = first_archived(&scan_root_dir(&f).unwrap()).unwrap();
    assert_eq!(file_content(&f, &file).unwrap().len(), 512);
}

#[test]
fn content_is_truncated_where_the_chain_ends_early() {
    let mut img = small_image(2);
    put_entry(&mut img, 0, b"SHORT   TXT", 0x20, 2, 2000);
    set_fat(&mut img, 2, 0xFFFF);
    put_cluster(&mut img, 2, &[b'q'; 512]);
    let f = Fat16Img::new(img).unwrap();
    let file = first_archived(&scan_root_dir(&f).unwrap()).unwrap();
    assert_eq!(file_content(&f, &file).unwrap(), vec![b'q'; 512]);
}

#[test]
fn content_through_a_reserved_cluster_is_a_format_error() {
    let mut img = small_image(2);
    put_entry(&mut img, 0, b"BAD     TXT", 0x20, 0, 10);
    put_entry(&mut img, 1, b"BAD2    TXT", 0x20, 2, 600);
    set_fat(&mut img, 2, 1);
    let f = Fat16Img::new(img).unwrap();
    let listed = scan_root_dir(&f).unwrap();
    assert!(matches!(file_content(&f, &listed[0]), Err(FatError::ImageFormat)));
    assert!(matches!(file_content(&f, &listed[1]), Err(FatError::ImageFormat)));
}

#[test]
fn content_past_the_image_is_an_io_error() {
    let mut img = small_image(1);
    put_entry(&mut img, 0, b"FAR     TXT", 0x20, 9, 10);
    let f = Fat16Img::new(img).unwrap();
    let listed = scan_root_dir(&f).unwrap();
    assert!(matches!(file_content(&f, &listed[0]), Err(FatError::Io)));
}

#[test]
fn empty_file_has_no_content() {
    let mut img = small_image(1);
    put_entry(&mut img, 0, b"EMPTY      ", 0x20, 0, 0);
    let f = Fat16Img::new(img).unwrap();
    let listed = scan_root_dir(&f).unwrap();
    assert_eq!(file_content(&f, &listed[0]).unwrap(), Vec::<u8>::new());
}

#[test]
fn first_archived_picks_the_first_file() {
    let mut img = small_image(1);
    put_entry(&mut img, 0, b"SUBDIR     ", 0x10, 3, 0);
    put_entry(&mut img, 1, b"VOLUME     ", 0x08, 0, 0);
    put_entry(&mut img, 2, b"ONE     TXT", 0x20, 2, 1);
    put_entry(&mut img, 3, b"TWO     TXT", 0x21, 2, 1);
    let f = Fat16Img::new(img).unwrap();
    let listed = scan_root_dir(&f).unwrap();
    assert_eq!(listed.len(), 4);
    assert_eq!(first_archived(&listed).unwrap().display_name(), b"ONE.TXT".to_vec());
    assert!(first_archived(&listed[..2].to_vec()).is_none());
    assert!(first_archived(&Vec::new()).is_none());
}

#[test]
fn name_and_extension_round_trip() {
    let mut slot = [0u8; 32];
    slot[..11].copy_from_slice(b"AB CD  EXE ");
    slot[11] = 0x27;
    let e = DirEntry::decode(&slot, 0);
    let mut again = e.name().to_vec();
    again.extend_from_slice(&e.ext());
    assert_eq!(&again[..], &slot[..11]);
}

#[test]
fn decode_reads_cluster_and_size_little_endian() {
    let mut buf = vec![0u8; 40];
    buf[8..19].copy_from_slice(b"NAME    EXT");
    put16(&mut buf, 8 + 26, 0x1234);
    put32(&mut buf, 8 + 28, 0xA1B2C3D4);
    let e = DirEntry::decode(&buf, 8);
    assert_eq!(e.first_cluster(), 0x1234);
    assert_eq!(e.size(), 0xA1B2C3D4);
    assert_eq!(e.display_name(), b"NAME.EXT".to_vec());
}

#[test]
fn attribute_predicates() {
    let mut slot = [b' '; 32];
    for (bit, expected) in [(0x01u8, 0usize), (0x02, 1), (0x04, 2), (0x08, 3), (0x10, 4), (0x20, 5)] {
        slot[11] = bit;
        let e = DirEntry::decode(&slot, 0);
        let flags = [
            e.attr_readonly(),
            e.attr_hidden(),
            e.attr_system(),
            e.attr_volumeid(),
            e.attr_directory(),
            e.attr_archive(),
        ];
        for (i, f) in flags.iter().enumerate() {
            assert_eq!(*f, i == expected);
        }
        assert!(!e.attr_lfn());
    }
    slot[11] = 0x0F;
    assert!(DirEntry::decode(&slot, 0).attr_lfn());
    slot[11] = 0x07;
    assert!(!DirEntry::decode(&slot, 0).attr_lfn());
}

#[test]
fn display_name_rules() {
    let mut slot = [0u8; 32];
    slot[..11].copy_from_slice(b"README     ");
    assert_eq!(DirEntry::decode(&slot, 0).display_name(), b"README".to_vec());
    slot[..11].copy_from_slice(b"DOCS    BAK");
    slot[11] = 0x10;
    let dir = DirEntry::decode(&slot, 0);
    assert_eq!(dir.display_name(), b"DOCS".to_vec());
    let line = ls_entry(dir);
    assert!(line.is_dir);
    assert_eq!(line.size, 0);
    slot[..11].copy_from_slice(b"A B\t    C\r ");
    slot[11] = 0x20;
    assert_eq!(DirEntry::decode(&slot, 0).display_name(), b"A B.C".to_vec());
}

#[test]
fn directory_listing_reports_size_zero() {
    let mut slot = [0u8; 32];
    slot[..11].copy_from_slice(b"SUB        ");
    slot[11] = 0x10;
    put32_slice(&mut slot, 28, 4096);
    let e = DirEntry::decode(&slot, 0);
    assert_eq!(e.size(), 4096);
    let line = ls_entry(e);
    assert_eq!(line.size, 0);
    assert_eq!(line.name, b"SUB".to_vec());
}

fn put32_slice(b: &mut [u8], off: usize, v: u32) {
    for i in 0..4 {
        b[off + i] = (v >> (8 * i)) as u8;
    }
}

#[test]
fn new_entry_is_zero() {
    let e = DirEntry::new();
    assert_eq!(e.name(), [0u8; 8]);
    assert_eq!(e.ext(), [0u8; 3]);
    assert_eq!(e.first_cluster(), 0);
    assert_eq!(e.size(), 0);
    assert!(!e.attr_archive());
}
