use iso9660_simple::extensions::joliet::parse_name;
use iso9660_simple::extensions::rock_ridge::{self as susp, RockRidgeError};
use iso9660_simple::io::{MemoryDevice, Read};
use iso9660_simple::rock_ridge;
use iso9660_simple::types::{read_dual_u16, read_dual_u32};
use iso9660_simple::{literal_name_of, IsoError};

#[test]
fn joliet_dot_pairs() {
    assert_eq!(parse_name(&[0, 0]).as_deref(), Some("."));
    assert_eq!(parse_name(&[0, 1]).as_deref(), Some(".."));
    assert_eq!(parse_name(&[0]).as_deref(), Some("."));
    assert_eq!(parse_name(&[1]).as_deref(), Some(".."));
}

#[test]
fn joliet_decodes_big_endian_ucs2() {
    assert_eq!(parse_name(&[0, b'A', 0, b'b']).as_deref(), Some("Ab"));
    assert_eq!(parse_name(&[0, b'A', 0, 0, 0, 0]).as_deref(), Some("A"));
    assert_eq!(parse_name(&[0x00, 0xe9]).as_deref(), Some("\u{e9}"));
    assert_eq!(parse_name(&[0x4e, 0x2d, 0x65, 0x87]).as_deref(), Some("\u{4e2d}\u{6587}"));
    assert_eq!(parse_name(&[0xd8, 0x00]), None);
    assert_eq!(parse_name(&[0, b'A', 0]), None);
}

fn nm(flags: u8, name: &[u8]) -> Vec<u8> {
    let mut v = vec![b'N', b'M', (5 + name.len()) as u8, 1, flags];
    v.extend_from_slice(name);
    v
}

fn first(data: &[u8]) -> Result<Option<String>, RockRidgeError> {
    let mut p = susp::parse(data);
    match p.next()? {
        Some(susp::Entity::Name { name }) => Ok(Some(name)),
        Some(_) => Ok(Some(String::from("<attributes>"))),
        None => Ok(None),
    }
}

#[test]
fn rock_ridge_dot_entries_ignore_their_bytes() {
    assert_eq!(first(&nm(2, b"ignored")).unwrap().as_deref(), Some("."));
    assert_eq!(first(&nm(4, b"ignored")).unwrap().as_deref(), Some(".."));
    assert_eq!(first(&nm(6, b"")).unwrap().as_deref(), Some("."));
    assert_eq!(first(&nm(0, b"file.txt")).unwrap().as_deref(), Some("file.txt"));
}

#[test]
fn rock_ridge_entries_parse() {
    let mut data = vec![b'S', b'P', 7, 1, 0xbe, 0xef, 0];
    let mut px = vec![0u8; 45];
    px[0] = b'P';
    px[1] = b'X';
    px[2] = 45;
    px[3] = 1;
    for (k, v) in [0o100644u32, 1, 1000, 100, 42].iter().enumerate() {
        px[5 + 8 * k..9 + 8 * k].copy_from_slice(&v.to_le_bytes());
        px[9 + 8 * k..13 + 8 * k].copy_from_slice(&v.to_be_bytes());
    }
    data.extend_from_slice(&px);
    data.extend_from_slice(&[b'T', b'F', 5, 1, 0]);
    data.extend_from_slice(&nm(0, b"name"));
    let all = rock_ridge::parse(&data).unwrap().expect("entities");
    assert_eq!(all.len(), 2);
    match &all[0] {
        rock_ridge::Entity::PosixAttributes {
            posix_file_mode,
            posix_file_links,
            posix_file_user_id,
            posix_file_group_id,
            posix_file_serial_number,
        } => {
            assert_eq!(*posix_file_mode, 0o100644);
            assert_eq!(*posix_file_links, 1);
            assert_eq!(*posix_file_user_id, 1000);
            assert_eq!(*posix_file_group_id, 100);
            assert_eq!(*posix_file_serial_number, 42);
        }
        _ => panic!("expected attributes"),
    }
    match &all[1] {
        rock_ridge::Entity::Name { name } => assert_eq!(name, "name"),
        _ => panic!("expected a name"),
    }
}

#[test]
fn rock_ridge_name_with_invalid_utf8_is_replaced() {
    assert_eq!(first(&nm(0, &[b'a', 0xff, b'b'])).unwrap().as_deref(), Some("a\u{fffd}b"));
    let all = rock_ridge::parse(&nm(0, &[0xc3, 0xa9])).unwrap().expect("entities");
    match &all[0] {
        rock_ridge::Entity::Name { name } => assert_eq!(name, "\u{e9}"),
        _ => panic!("expected a name"),
    }
}

#[test]
fn rock_ridge_failures() {
    assert!(matches!(rock_ridge::parse(&[]), Ok(None)));
    assert!(matches!(rock_ridge::parse(&[b'S', b'P']), Ok(None)));
    assert_eq!(
        rock_ridge::parse(&[b'Q', b'Q', 4, 1]).err(),
        Some(RockRidgeError::UnsupportedEntity(b'Q', b'Q'))
    );
    assert_eq!(rock_ridge::parse(&[b'T', b'F', 0, 1]).err(), Some(RockRidgeError::Malformed));
    assert_eq!(rock_ridge::parse(&[b'P', b'X', 44, 1, 0, 0]).err(), Some(RockRidgeError::Malformed));
    assert_eq!(first(&[b'N', b'M', 9, 1, 0, b'a']), Err(RockRidgeError::Malformed));
}

#[test]
fn literal_names() {
    assert_eq!(literal_name_of(&[0]).unwrap(), ".");
    assert_eq!(literal_name_of(&[1]).unwrap(), "..");
    assert_eq!(literal_name_of(b"README.TXT;1").unwrap(), "README.TXT;1");
    assert_eq!(literal_name_of(&[0xc3, 0xa9]).unwrap(), "\u{e9}");
    assert_eq!(literal_name_of(&[0xff]).err(), Some(IsoError::MalformedName));
}

#[test]
fn dual_endian_integers() {
    let b = [0x34, 0x12, 0x12, 0x34];
    let v = read_dual_u16(&b, 0);
    assert_eq!((v.lsb, v.msb), (0x1234, 0x1234));
    let c = [0x78, 0x56, 0x34, 0x12, 0x12, 0x34, 0x56, 0x78];
    let w = read_dual_u32(&c, 0);
    assert_eq!((w.lsb, w.msb), (0x12345678, 0x12345678));
}

#[test]
fn memory_device_reads_exactly() {
    let mut d = MemoryDevice::new(vec![1, 2, 3, 4]);
    let mut buf = [0u8; 2];
    assert_eq!(d.read(1, &mut buf), Some(()));
    assert_eq!(buf, [2, 3]);
    assert_eq!(d.read(3, &mut buf), None);
    assert_eq!(d.read(9, &mut buf), None);
}
