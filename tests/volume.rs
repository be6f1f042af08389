use iso9660_simple::descriptors::DescriptorType;
use iso9660_simple::helpers::{get_directory_entry_by_path, split_path};
use iso9660_simple::io::MemoryDevice;
use iso9660_simple::iter::{DescriptorIterator, DirectoryIter};
use iso9660_simple::{IsoError, ISO9660};

const SECTOR: usize = 2048;

fn put_dual32(b: &mut [u8], at: usize, v: u32) {
    b[at..at + 4].copy_from_slice(&v.to_le_bytes());
    b[at + 4..at + 8].copy_from_slice(&v.to_be_bytes());
}

/// A directory record whose name bytes start right after the fixed part.
fn record(lba: u32, size: u32, dir: bool, name: &[u8], system_use: &[u8]) -> Vec<u8> {
    let mut r = vec![0u8; 33];
    r.extend_from_slice(name);
    if r.len() % 2 != 0 {
        r.push(0);
    }
    r.extend_from_slice(system_use);
    if r.len() % 2 != 0 {
        r.push(0);
    }
    let len = r.len();
    r[0] = len as u8;
    put_dual32(&mut r, 2, lba);
    put_dual32(&mut r, 10, size);
    r[18] = 120;
    r[19] = 5;
    r[20] = 17;
    r[25] = if dir { 2 } else { 0 };
    r[28] = 1;
    r[31] = 1;
    r[32] = name.len() as u8;
    r
}

/// A directory record with a Joliet name, placed so that the name starts on
/// an even byte of a record that starts on an even byte; a one-byte
/// identifier stays right after the fixed part.
fn joliet_record(lba: u32, size: u32, dir: bool, ucs2: &[u8], system_use: &[u8]) -> Vec<u8> {
    let mut r = vec![0u8; if ucs2.len() == 1 { 33 } else { 34 }];
    r.extend_from_slice(ucs2);
    r.extend_from_slice(system_use);
    if r.len() % 2 != 0 {
        r.push(0);
    }
    let len = r.len();
    r[0] = len as u8;
    put_dual32(&mut r, 2, lba);
    put_dual32(&mut r, 10, size);
    r[25] = if dir { 2 } else { 0 };
    r[32] = ucs2.len() as u8;
    r
}

fn descriptor(image: &mut [u8], index: usize, kind: u8, root: &[u8]) {
    let at = 0x8000 + index * SECTOR;
    image[at] = kind;
    image[at + 1..at + 6].copy_from_slice(b"CD001");
    image[at + 6] = 1;
    image[at + 8..at + 12].copy_from_slice(b"SYST");
    image[at + 40..at + 45].copy_from_slice(b"LABEL");
    put_dual32(image, at + 80, 64);
    image[at + 156..at + 156 + root.len()].copy_from_slice(root);
}

fn put_dir(image: &mut [u8], lba: usize, records: &[Vec<u8>]) {
    let mut at = lba * SECTOR;
    for r in records {
        image[at..at + r.len()].copy_from_slice(r);
        at += r.len();
    }
}

const ROOT_LBA: u32 = 20;
const FILE_LBA: u32 = 21;
const SUB_LBA: u32 = 22;

/// A plain volume: a root holding HELLO.TXT and the directory SUB, which
/// holds INNER.TXT.
fn plain_image() -> Vec<u8> {
    let mut image = vec![0u8; 24 * SECTOR];
    let root = record(ROOT_LBA, 2048, true, &[0], &[]);
    descriptor(&mut image, 0, 1, &root);
    descriptor(&mut image, 1, 0xff, &[]);
    put_dir(
        &mut image,
        ROOT_LBA as usize,
        &[
            record(ROOT_LBA, 2048, true, &[0], &[]),
            record(ROOT_LBA, 2048, true, &[1], &[]),
            record(FILE_LBA, 5, false, b"HELLO.TXT", &[]),
            record(SUB_LBA, 2048, true, b"SUB", &[]),
        ],
    );
    image[FILE_LBA as usize * SECTOR..FILE_LBA as usize * SECTOR + 5].copy_from_slice(b"hello");
    put_dir(
        &mut image,
        SUB_LBA as usize,
        &[
            record(SUB_LBA, 2048, true, &[0], &[]),
            record(ROOT_LBA, 2048, true, &[1], &[]),
            record(23, 3, false, b"INNER.TXT", &[]),
        ],
    );
    image[23 * SECTOR..23 * SECTOR + 3].copy_from_slice(b"abc");
    image
}

fn open(image: Vec<u8>) -> ISO9660<MemoryDevice> {
    ISO9660::from_device(MemoryDevice::new(image)).expect("a volume")
}

fn names(iso: &mut ISO9660<MemoryDevice>, lba: u32) -> Vec<String> {
    iso.read_directory_entries(lba)
        .expect("a listing")
        .into_iter()
        .map(|e| e.name)
        .collect()
}

#[test]
fn hello_txt_is_found_and_read() {
    let mut iso = open(plain_image());
    let entry = get_directory_entry_by_path(&mut iso, "HELLO.TXT")
        .expect("no failure")
        .expect("an entry");
    assert_eq!(entry.file_size(), 5);
    assert_eq!(entry.lsb_position(), FILE_LBA);
    assert!(entry.is_file());
    assert!(!entry.is_folder());
    let mut data = [0u8; 5];
    assert_eq!(iso.read_file(&entry, 0, &mut data), Some(()));
    assert_eq!(&data, b"hello");
}

#[test]
fn zero_length_record_ends_directory() {
    let mut image = plain_image();
    let empty_lba = 10usize;
    image[empty_lba * SECTOR] = 0;
    let mut iso = open(image);
    assert_eq!(iso.read_directory_entries(empty_lba as u32).expect("a listing").len(), 0);
    let mut it = iso.read_directory(empty_lba);
    assert!(matches!(it.next(&mut iso), Ok(None)));
    assert!(matches!(it.next(&mut iso), Ok(None)));
}

#[test]
fn supplementary_descriptor_selects_joliet_names() {
    let mut image = vec![0u8; 40 * SECTOR];
    let plain_root = record(ROOT_LBA, 2048, true, &[0], &[]);
    let joliet_root = record(30, 2048, true, &[0], &[]);
    descriptor(&mut image, 0, 1, &plain_root);
    descriptor(&mut image, 1, 2, &joliet_root);
    descriptor(&mut image, 2, 0xff, &[]);
    put_dir(
        &mut image,
        ROOT_LBA as usize,
        &[record(ROOT_LBA, 2048, true, &[0], &[]), record(FILE_LBA, 5, false, b"PLAIN.TXT", &[])],
    );
    let mut nm = vec![b'N', b'M', 11, 1, 0];
    nm.extend_from_slice(b"rrname");
    put_dir(
        &mut image,
        30,
        &[
            joliet_record(30, 2048, true, &[0], &[]),
            joliet_record(ROOT_LBA, 2048, true, &[1], &[]),
            joliet_record(FILE_LBA, 5, false, &[0, b'L', 0, b'o', 0, b'n', 0, b'g'], &nm),
        ],
    );
    let mut iso = open(image);
    assert!(iso.has_joliet());
    assert_eq!(iso.root().lba.lsb, 30);
    assert_eq!(names(&mut iso, 30), vec![".", "..", "Long"]);
    let entry = get_directory_entry_by_path(&mut iso, "/Long").expect("no failure").expect("an entry");
    assert_eq!(entry.lsb_position(), FILE_LBA);
    assert!(get_directory_entry_by_path(&mut iso, "rrname").expect("no failure").is_none());
}

#[test]
fn descriptor_scan_stops_at_terminator() {
    let mut image = plain_image();
    let mut iso = open(image.clone());
    let all = iso.descriptors();
    assert_eq!(all.len(), 1);
    assert_eq!(all[0].desc_type, DescriptorType::PrimaryVolume);
    assert_eq!(&all[0].id, b"CD001");
    assert_eq!(all[0].version, 1);

    descriptor(&mut image, 1, 0, &[]);
    descriptor(&mut image, 2, 3, &[]);
    descriptor(&mut image, 3, 0xff, &[]);
    descriptor(&mut image, 4, 1, &[]);
    let mut device = MemoryDevice::new(image);
    let mut it = DescriptorIterator::new();
    let mut kinds = Vec::new();
    while let Some(d) = it.next(&mut device) {
        kinds.push(d.desc_type);
    }
    assert_eq!(
        kinds,
        vec![DescriptorType::PrimaryVolume, DescriptorType::BootRecord, DescriptorType::VolumePartition]
    );
    assert!(it.next(&mut device).is_none());
}

#[test]
fn primary_descriptor_fields_decode() {
    let mut iso = open(plain_image());
    let all = iso.descriptors();
    let pvd = all[0].try_as_pvd().expect("a primary descriptor");
    assert!(all[0].try_as_svd().is_none());
    assert_eq!(&pvd.system_name[..4], b"SYST");
    assert_eq!(&pvd.label[..5], b"LABEL");
    assert_eq!(pvd.volume_space_size.lsb, 64);
    assert_eq!(pvd.volume_space_size.msb, 64);
    assert_eq!(pvd.directory_entry.len(), 34);
    assert_eq!(pvd.directory_entry[2], ROOT_LBA as u8);
    assert_eq!(pvd.reserved.len(), 653);
}

#[test]
fn primary_descriptor_encodes_back_to_its_payload() {
    let image = plain_image();
    let mut iso = open(image.clone());
    let all = iso.descriptors();
    let pvd = all[0].try_as_pvd().expect("a primary descriptor");
    assert_eq!(pvd.as_slice(), image[0x8000 + 7..0x8000 + 2048].to_vec());
    assert_eq!(all[0].data, image[0x8000 + 7..0x8000 + 2048].to_vec());
}

#[test]
fn empty_path_resolves_to_root() {
    let mut iso = open(plain_image());
    for path in ["", "/", "//"] {
        let entry = get_directory_entry_by_path(&mut iso, path).expect("no failure").expect("root");
        assert_eq!(entry.lsb_position(), iso.root().lba.lsb);
        assert_eq!(entry.name, "/");
    }
}

#[test]
fn directory_listing_is_restartable() {
    let mut iso = open(plain_image());
    let first = iso.read_directory_entries(ROOT_LBA).expect("a listing");
    let second = iso.read_directory_entries(ROOT_LBA).expect("a listing");
    assert_eq!(first.len(), 4);
    assert_eq!(first.len(), second.len());
    for (a, b) in first.iter().zip(second.iter()) {
        assert_eq!(a.name, b.name);
        assert_eq!(a.lsb_position(), b.lsb_position());
        assert_eq!(a.file_size(), b.file_size());
    }
    let mut again = Vec::new();
    let mut it = iso.read_root();
    while let Some(e) = it.next(&mut iso).expect("no failure") {
        again.push(e.name);
    }
    assert_eq!(again, vec![".", "..", "HELLO.TXT", "SUB"]);
}

#[test]
fn chunked_reads_match_one_read() {
    let mut iso = open(plain_image());
    let entry = get_directory_entry_by_path(&mut iso, "HELLO.TXT").unwrap().unwrap();
    let mut whole = [0u8; 5];
    assert!(iso.read_file(&entry, 0, &mut whole).is_some());
    let mut joined = Vec::new();
    let mut offset = 0;
    for size in [1usize, 2, 2] {
        let mut chunk = vec![0u8; size];
        assert!(iso.read_file(&entry, offset, &mut chunk).is_some());
        joined.extend_from_slice(&chunk);
        offset += size;
    }
    assert_eq!(joined, whole.to_vec());
    let mut past = [0u8; 2];
    assert!(iso.read_file(&entry, 4, &mut past).is_none());
    let mut six = [0u8; 6];
    assert!(iso.read_file(&entry, 0, &mut six).is_none());
    let dir = get_directory_entry_by_path(&mut iso, "SUB").unwrap().unwrap();
    let mut one = [0u8; 1];
    assert!(iso.read_file(&dir, 0, &mut one).is_none());
}

#[test]
fn nested_paths_resolve() {
    let mut iso = open(plain_image());
    let inner = get_directory_entry_by_path(&mut iso, "/SUB/INNER.TXT").unwrap().unwrap();
    assert_eq!(inner.name, "INNER.TXT");
    assert_eq!(inner.file_size(), 3);
    let mut data = [0u8; 3];
    assert!(iso.read_file(&inner, 0, &mut data).is_some());
    assert_eq!(&data, b"abc");
    assert!(get_directory_entry_by_path(&mut iso, "SUB//INNER.TXT/").unwrap().is_some());
    assert!(get_directory_entry_by_path(&mut iso, "HELLO.TXT/INNER.TXT").unwrap().is_none());
    assert!(get_directory_entry_by_path(&mut iso, "MISSING").unwrap().is_none());
    assert!(get_directory_entry_by_path(&mut iso, "hello.txt").unwrap().is_none());
    let sub = get_directory_entry_by_path(&mut iso, "SUB").unwrap().unwrap();
    assert!(sub.is_folder());
}

#[test]
fn literal_dot_names() {
    let mut iso = open(plain_image());
    let listing = iso.read_directory_entries(SUB_LBA).unwrap();
    assert_eq!(listing[0].name, ".");
    assert_eq!(listing[1].name, "..");
    assert_eq!(listing[1].lsb_position(), ROOT_LBA);
}

#[test]
fn rock_ridge_name_replaces_literal_name() {
    let mut image = plain_image();
    let mut area = vec![b'S', b'P', 7, 1, 0xbe, 0xef, 0];
    area.extend_from_slice(&[b'N', b'M', 18, 1, 0]);
    area.extend_from_slice(b"long_name.txt");
    put_dir(
        &mut image,
        12,
        &[record(12, 2048, true, &[0], &[b'N', b'M', 5, 1, 2]), record(FILE_LBA, 5, false, b"LONG_NAM.TXT", &area)],
    );
    let mut iso = open(image);
    assert_eq!(names(&mut iso, 12), vec![".", "long_name.txt"]);
}

#[test]
fn malformed_inputs_give_their_errors() {
    let mut image = plain_image();
    put_dir(&mut image, 12, &[vec![10u8; 33]]);
    put_dir(&mut image, 13, &[record(FILE_LBA, 5, false, &[0xff, 0xfe], &[])]);
    put_dir(&mut image, 14, &[record(FILE_LBA, 5, false, b"A", &[b'Z', b'Z', 4, 1])]);
    let mut iso = open(image);
    assert_eq!(iso.read_directory_entries(12).err(), Some(IsoError::Malformed));
    assert_eq!(iso.read_directory_entries(13).err(), Some(IsoError::MalformedName));
    assert_eq!(iso.read_directory_entries(14).err(), Some(IsoError::UnsupportedEntity(b'Z', b'Z')));
    assert_eq!(iso.read_directory_entries(1000).err(), Some(IsoError::Io));
    let mut it = DirectoryIter::new(1000 * SECTOR);
    assert_eq!(it.next(&mut iso).err(), Some(IsoError::Io));
}

#[test]
fn volume_without_primary_descriptor_is_refused() {
    let mut image = plain_image();
    image[0x8000] = 0;
    assert!(ISO9660::from_device(MemoryDevice::new(image)).is_none());
    assert!(ISO9660::from_device(MemoryDevice::new(vec![0u8; 100])).is_none());
    let mut terminated = plain_image();
    terminated[0x8000] = 0xff;
    assert!(ISO9660::from_device(MemoryDevice::new(terminated)).is_none());
}

#[test]
fn path_splits_on_slashes() {
    assert_eq!(split_path(b"/a//bc/"), vec![b"a".to_vec(), b"bc".to_vec()]);
    assert!(split_path(b"///").is_empty());
    assert!(split_path(b"").is_empty());
}
