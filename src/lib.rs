//! A read-only decoder for ISO 9660 volumes, with the Joliet and Rock Ridge
//! name extensions.
//!
//! The decoder reads through a [`Read`] source. Every decoding step is stated
//! over [`Read::image`], the bytes that the source holds.
pub mod types;
pub mod io;
pub mod text;
pub mod extensions;
pub mod rock_ridge;
pub mod descriptors;
pub mod iter;
pub mod helpers;

use vstd::prelude::*;
use vstd::utf8::{decode_utf8, valid_utf8};
use crate::extensions::joliet::{joliet_name, parse_name};
use crate::extensions::rock_ridge::{rr_first_name, RockRidgeError};
use crate::types::{dual_u16, dual_u32, read_dual_u16, read_dual_u32, LSB_MSB};
use crate::descriptors::{Descriptor, DescriptorType};
use crate::iter::{
    dir_listing, first_of_type, read_descriptor, scan, DescriptorIterator, DirectoryIter,
};

pub use crate::io::Read;

verus! {

/// Each sector of a volume is 2048 bytes.
pub const DISK_SECTOR_SIZE: usize = 2048;

/// Byte offset of the first volume descriptor.
pub const PRIMARY_VOLUME_DESCRIPTOR_POSITION: usize = 0x8000;

/// Flag bit of a directory record that marks a directory.
pub const FLAG_DIRECTORY: u8 = 2;

/// Size in bytes of the fixed part of a directory record.
pub const RECORD_HEADER_SIZE: usize = 33;

/// Date and time packed into every directory record.
#[derive(Clone, Copy, Debug, Default, PartialEq, Eq, Structural)]
pub struct ISODateTime {
    pub year: u8,
    pub month: u8,
    pub day: u8,
    pub hour: u8,
    pub minute: u8,
    pub second: u8,
    pub gmt_offset: u8,
}

/// The fixed part of a directory record (the name is not counted in).
#[derive(Clone, Copy, Debug, Default)]
pub struct ISODirectoryRecord {
    pub length: u8,
    pub xar_length: u8,
    pub lba: LSB_MSB<u32>,
    pub data_length: LSB_MSB<u32>,
    pub datetime: ISODateTime,
    pub flags: u8,
    pub unit_size: u8,
    pub interleave_gap_size: u8,
    pub volume_seq_number: LSB_MSB<u16>,
    pub file_identifier_length: u8,
}

/// The record whose fixed part is the first 33 bytes of `h`.
pub open spec fn record_from(h: Seq<u8>) -> ISODirectoryRecord {
    ISODirectoryRecord {
        length: h[0],
        xar_length: h[1],
        lba: dual_u32(h, 2),
        data_length: dual_u32(h, 10),
        datetime: ISODateTime {
            year: h[18],
            month: h[19],
            day: h[20],
            hour: h[21],
            minute: h[22],
            second: h[23],
            gmt_offset: h[24],
        },
        flags: h[25],
        unit_size: h[26],
        interleave_gap_size: h[27],
        volume_seq_number: dual_u16(h, 28),
        file_identifier_length: h[32],
    }
}

impl ISODirectoryRecord {
    /// Decodes the fixed part of a directory record from the front of `h`.
    pub fn from_bytes(h: &[u8]) -> (r: ISODirectoryRecord)
        requires
            h@.len() >= RECORD_HEADER_SIZE,
        ensures
            r == record_from(h@),
    {
        ISODirectoryRecord {
            length: h[0],
            xar_length: h[1],
            lba: read_dual_u32(h, 2),
            data_length: read_dual_u32(h, 10),
            datetime: ISODateTime {
                year: h[18],
                month: h[19],
                day: h[20],
                hour: h[21],
                minute: h[22],
                second: h[23],
                gmt_offset: h[24],
            },
            flags: h[25],
            unit_size: h[26],
            interleave_gap_size: h[27],
            volume_seq_number: read_dual_u16(h, 28),
            file_identifier_length: h[32],
        }
    }
}

/// A directory record together with its display name.
#[derive(Debug, Clone)]
pub struct ISODirectoryEntry {
    pub record: ISODirectoryRecord,
    pub name: String,
}

/// What an entry holds: its record and its name as characters.
pub type EntryView = (ISODirectoryRecord, Seq<char>);

impl View for ISODirectoryEntry {
    type V = EntryView;

    open spec fn view(&self) -> EntryView {
        (self.record, self.name@)
    }
}

/// Whether the record `r` describes a directory.
pub open spec fn is_dir_record(r: ISODirectoryRecord) -> bool {
    r.flags & FLAG_DIRECTORY != 0
}

impl ISODirectoryEntry {
    /// Whether this entry is a directory.
    pub fn is_folder(&self) -> (r: bool)
        ensures
            r == is_dir_record(self.record),
    {
        (self.record.flags & FLAG_DIRECTORY) != 0
    }

    /// Whether this entry is a plain file.
    pub fn is_file(&self) -> (r: bool)
        ensures
            r == !is_dir_record(self.record),
    {
        !self.is_folder()
    }

    /// The logical block address of the entry's extent.
    pub fn lsb_position(&self) -> (r: u32)
        ensures
            r == self.record.lba.lsb,
    {
        self.record.lba.lsb
    }

    /// The size in bytes of the entry's data.
    pub fn file_size(&self) -> (r: u32)
        ensures
            r == self.record.data_length.lsb,
    {
        self.record.data_length.lsb
    }
}

/// Why an operation on a volume failed.
#[derive(Copy, Clone, Debug, PartialEq, Eq, Structural)]
pub enum IsoError {
    /// The block source failed to read.
    Io,
    /// A record or an extension entry does not fit its declared size.
    Malformed,
    /// A name is not valid UCS-2 or UTF-8.
    MalformedName,
    /// A Rock Ridge entry with a tag that is not supported; its tag bytes.
    UnsupportedEntity(u8, u8),
}

/// The volume error for a Rock Ridge decoding failure.
pub open spec fn rr_error(e: RockRidgeError) -> IsoError {
    match e {
        RockRidgeError::UnsupportedEntity(a, b) => IsoError::UnsupportedEntity(a, b),
        RockRidgeError::Malformed => IsoError::Malformed,
    }
}

fn from_rr_error(e: RockRidgeError) -> (r: IsoError)
    ensures
        r == rr_error(e),
{
    match e {
        RockRidgeError::UnsupportedEntity(a, b) => IsoError::UnsupportedEntity(a, b),
        RockRidgeError::Malformed => IsoError::Malformed,
    }
}

/// The on-disk file identifier `b` read literally: a first byte 0 is the
/// current directory, 1 the parent, otherwise the bytes are UTF-8 text.
pub open spec fn literal_name(b: Seq<u8>) -> Result<Seq<char>, IsoError> {
    if b.len() > 0 && b[0] == 0 {
        Ok(seq!['.'])
    } else if b.len() > 0 && b[0] == 1 {
        Ok(seq!['.', '.'])
    } else if valid_utf8(b) {
        Ok(decode_utf8(b))
    } else {
        Err(IsoError::MalformedName)
    }
}

/// The `n` bytes of `img` at `pos`, when they are all there.
pub open spec fn bytes_at(img: Seq<u8>, pos: int, n: int) -> Option<Seq<u8>> {
    if 0 <= pos && 0 <= n && pos + n <= img.len() {
        Some(img.subrange(pos, pos + n))
    } else {
        None
    }
}

/// The Joliet name of `len` bytes whose field starts at `pos` of `img`.
/// UCS-2 starts on an even byte, so an odd `pos` moves one byte on, except
/// for a one-byte identifier.
pub open spec fn joliet_name_at(img: Seq<u8>, pos: int, len: int) -> Result<Seq<char>, IsoError> {
    let a = if pos % 2 != 0 && len != 1 {
        pos + 1
    } else {
        pos
    };
    match bytes_at(img, a, len) {
        None => Err(IsoError::Io),
        Some(b) => match joliet_name(b) {
            Some(n) => Ok(n),
            None => Err(IsoError::MalformedName),
        },
    }
}

/// The Rock Ridge name of the record at offset `off` of `img`, whose fixed
/// part and name take `main` bytes and which is `len` bytes long. Its System
/// Use area runs from the first even byte after the name to the record's end.
pub open spec fn rock_ridge_name_at(img: Seq<u8>, off: int, main: int, len: int) -> Result<
    Option<Seq<char>>,
    IsoError,
> {
    let a = if (off + main) % 2 != 0 {
        off + main + 1
    } else {
        off + main
    };
    let area = if a <= off + len {
        bytes_at(img, a, off + len - a)
    } else {
        Some(Seq::empty())
    };
    match area {
        None => Err(IsoError::Io),
        Some(area) => match rr_first_name(area, 0) {
            Err(x) => Err(rr_error(x)),
            Ok(n) => Ok(n),
        },
    }
}

/// The display name of the record `rec` found at offset `off` of `img`.
///
/// With Joliet active the identifier is decoded as UCS-2. Otherwise the
/// first Rock Ridge `NM` name of the System Use area wins, and the literal
/// identifier is the fallback. A read past the end of `img` is `Io`.
pub open spec fn entry_name(img: Seq<u8>, off: int, rec: ISODirectoryRecord, joliet: bool) -> Result<
    Seq<char>,
    IsoError,
> {
    let nl = rec.file_identifier_length as int;
    if joliet {
        joliet_name_at(img, off + 33, nl)
    } else if 33 + nl > rec.length {
        Err(IsoError::Malformed)
    } else {
        match rock_ridge_name_at(img, off, 33 + nl, rec.length as int) {
            Err(e) => Err(e),
            Ok(Some(n)) => Ok(n),
            Ok(None) => match bytes_at(img, off + 33, nl) {
                None => Err(IsoError::Io),
                Some(b) => literal_name(b),
            },
        }
    }
}

/// The entry whose record starts at offset `off` of `img`; `Ok(None)` where
/// the record length is 0, which ends a directory.
pub open spec fn dir_step(img: Seq<u8>, off: int, joliet: bool) -> Result<Option<EntryView>, IsoError> {
    match bytes_at(img, off, 33) {
        None => Err(IsoError::Io),
        Some(h) => {
            let rec = record_from(h);
            if rec.length == 0 {
                Ok(None)
            } else if rec.length < 33 {
                Err(IsoError::Malformed)
            } else {
                match entry_name(img, off, rec, joliet) {
                    Ok(n) => Ok(Some((rec, n))),
                    Err(e) => Err(e),
                }
            }
        },
    }
}

/// A result with its text as characters.
pub open spec fn text_view(r: Result<String, IsoError>) -> Result<Seq<char>, IsoError> {
    match r {
        Ok(s) => Ok(s@),
        Err(e) => Err(e),
    }
}

/// A result with its optional text as characters.
pub open spec fn opt_text_view(r: Result<Option<String>, IsoError>) -> Result<
    Option<Seq<char>>,
    IsoError,
> {
    match r {
        Ok(Some(s)) => Ok(Some(s@)),
        Ok(None) => Ok(None),
        Err(e) => Err(e),
    }
}

/// A result with its entry as a view.
pub open spec fn entry_view(r: Result<Option<ISODirectoryEntry>, IsoError>) -> Result<
    Option<EntryView>,
    IsoError,
> {
    match r {
        Ok(Some(e)) => Ok(Some(e@)),
        Ok(None) => Ok(None),
        Err(x) => Err(x),
    }
}

/// Decodes a literal file identifier.
pub fn literal_name_of(b: &[u8]) -> (r: Result<String, IsoError>)
    ensures
        text_view(r) == literal_name(b@),
{
    if b.len() > 0 && b[0] == 0 {
        Ok(text::dot())
    } else if b.len() > 0 && b[0] == 1 {
        Ok(text::dot_dot())
    } else {
        match text::utf8_string(b) {
            Some(s) => Ok(s),
            None => Err(IsoError::MalformedName),
        }
    }
}

/// The root directory record embedded in a Primary or Supplementary
/// descriptor sector `s`.
pub open spec fn root_in(s: Seq<u8>) -> ISODirectoryRecord {
    record_from(s.subrange(156, 190))
}

/// The root record and Joliet setting of the volume in `img`: the first
/// Supplementary descriptor's root when there is one (Joliet), else the first
/// Primary descriptor's; `None` without a Primary descriptor.
pub open spec fn volume_root(img: Seq<u8>) -> Option<(ISODirectoryRecord, bool)> {
    let sc = scan(img, PRIMARY_VOLUME_DESCRIPTOR_POSITION as int);
    match first_of_type(sc, DescriptorType::PrimaryVolume) {
        None => None,
        Some(p) => match first_of_type(sc, DescriptorType::SupplementaryVolume) {
            Some(v) => Some((root_in(v), true)),
            None => Some((root_in(p), false)),
        },
    }
}

/// The `len` bytes of file data at `offset` of the entry with record `rec`;
/// `None` for a directory or a range past the end of the file.
pub open spec fn file_bytes(img: Seq<u8>, rec: ISODirectoryRecord, offset: int, len: int) -> Option<
    Seq<u8>,
> {
    if is_dir_record(rec) || offset + len > rec.data_length.lsb {
        None
    } else {
        bytes_at(img, rec.lba.lsb * 2048 + offset, len)
    }
}

/// The sum of `sizes`.
pub open spec fn total(sizes: Seq<nat>) -> nat
    decreases sizes.len(),
{
    if sizes.len() == 0 {
        0
    } else {
        sizes[0] + total(sizes.drop_first())
    }
}

/// The bytes of consecutive reads of the sizes `sizes` from `offset` of a
/// file, put end to end; `None` when one of the reads fails.
pub open spec fn chunked_bytes(img: Seq<u8>, rec: ISODirectoryRecord, offset: int, sizes: Seq<nat>) -> Option<
    Seq<u8>,
>
    decreases sizes.len(),
{
    if sizes.len() == 0 {
        Some(Seq::empty())
    } else {
        match (
            file_bytes(img, rec, offset, sizes[0] as int),
            chunked_bytes(img, rec, offset + sizes[0], sizes.drop_first()),
        ) {
            (Some(a), Some(b)) => Some(a + b),
            _ => None,
        }
    }
}

/// Reading a file in chunks of any sizes gives the same bytes as one read of
/// the whole range, and a read that ends past the file's size fails.
pub proof fn lemma_chunked_reads(img: Seq<u8>, rec: ISODirectoryRecord, offset: nat, sizes: Seq<nat>)
    ensures
        file_bytes(img, rec, offset as int, total(sizes) as int) is Some ==> chunked_bytes(
            img,
            rec,
            offset as int,
            sizes,
        ) == file_bytes(img, rec, offset as int, total(sizes) as int),
        offset + total(sizes) > rec.data_length.lsb ==> file_bytes(
            img,
            rec,
            offset as int,
            total(sizes) as int,
        ) is None,
    decreases sizes.len(),
{
    if sizes.len() > 0 {
        let first = sizes[0];
        let rest = sizes.drop_first();
        lemma_chunked_reads(img, rec, offset + first, rest);
        if file_bytes(img, rec, offset as int, total(sizes) as int) is Some {
            let p = rec.lba.lsb * 2048 + offset;
            assert(img.subrange(p, p + first) + img.subrange(p + first, p + first + total(rest))
                =~= img.subrange(p, p + total(sizes)));
        }
    } else {
        if file_bytes(img, rec, offset as int, 0) is Some {
            let p = rec.lba.lsb * 2048 + offset;
            assert(img.subrange(p, p) =~= Seq::<u8>::empty());
        }
    }
}

/// Finds the first descriptor of type `t`, scanning from the first sector.
fn find_descriptor<D: Read>(device: &mut D, t: DescriptorType) -> (r: Result<
    Option<Descriptor>,
    IsoError,
>)
    ensures
        final(device).image() == old(device).image(),
        r is Ok ==> (r->Ok_0 is Some <==> first_of_type(
            scan(old(device).image(), PRIMARY_VOLUME_DESCRIPTOR_POSITION as int),
            t,
        ) is Some),
        r matches Ok(Some(d)) ==> (d.desc_type == t && d.decodes(
            first_of_type(
                scan(old(device).image(), PRIMARY_VOLUME_DESCRIPTOR_POSITION as int),
                t,
            )->Some_0,
        )),
{
    let ghost img = device.image();
    let mut position: usize = PRIMARY_VOLUME_DESCRIPTOR_POSITION;
    loop
        invariant
            device.image() == img,
            img == old(device).image(),
            first_of_type(scan(img, PRIMARY_VOLUME_DESCRIPTOR_POSITION as int), t)
                == first_of_type(scan(img, position as int), t),
        decreases img.len() - position,
    {
        match read_descriptor(device, position) {
            Ok(Some(d)) => {
                let ghost sc = scan(img, position as int);
                if d.desc_type == t {
                    return Ok(Some(d));
                }
                if position > usize::MAX - 2048 {
                    return Err(IsoError::Io);
                }
                position = position + 2048;
                assert(sc.drop_first() =~= scan(img, position as int));
            },
            Ok(None) => {
                return Ok(None);
            },
            Err(e) => {
                return Err(e);
            },
        }
    }
}

/// An open volume: the block source, the root directory record of the
/// chosen volume descriptor, and whether Joliet names are in use.
pub struct ISO9660<D: Read> {
    root_directory: ISODirectoryRecord,
    has_joliet: bool,
    device: D,
}

impl<D: Read> ISO9660<D> {
    /// The bytes of the volume's block source.
    pub closed spec fn image(&self) -> Seq<u8> {
        self.device.image()
    }

    /// Whether names are decoded as Joliet.
    pub closed spec fn joliet(&self) -> bool {
        self.has_joliet
    }

    /// The root directory record.
    pub closed spec fn root_record(&self) -> ISODirectoryRecord {
        self.root_directory
    }

    /// Both handles read the same bytes with the same settings.
    pub open spec fn same_volume(&self, other: ISO9660<D>) -> bool {
        &&& self.image() == other.image()
        &&& self.joliet() == other.joliet()
        &&& self.root_record() == other.root_record()
    }

    /// Opens the volume on `device`: the first Primary Volume Descriptor must
    /// exist; a Supplementary one, if present, is preferred and turns Joliet
    /// names on. `None` without a Primary descriptor or when the source fails.
    pub fn from_device(device: D) -> (r: Option<ISO9660<D>>)
        ensures
            volume_root(device.image()) is None ==> r is None,
            r matches Some(iso) ==> (iso.image() == device.image() && volume_root(device.image())
                == Some((iso.root_record(), iso.joliet()))),
    {
        let mut device = device;
        let ghost img = device.image();
        let pvd = match find_descriptor(&mut device, DescriptorType::PrimaryVolume) {
            Ok(Some(d)) => d,
            _ => {
                return None;
            },
        };
        let mut main_descriptor = match pvd.try_as_pvd() {
            Some(p) => p,
            None => {
                return None;
            },
        };
        let mut has_joliet = false;
        let ghost mut sector = first_of_type(
            scan(img, PRIMARY_VOLUME_DESCRIPTOR_POSITION as int),
            DescriptorType::PrimaryVolume,
        )->Some_0;
        match find_descriptor(&mut device, DescriptorType::SupplementaryVolume) {
            Ok(Some(svd)) => {
                main_descriptor = match svd.try_as_svd() {
                    Some(p) => p,
                    None => {
                        return None;
                    },
                };
                has_joliet = true;
                proof {
                    sector = first_of_type(
                        scan(img, PRIMARY_VOLUME_DESCRIPTOR_POSITION as int),
                        DescriptorType::SupplementaryVolume,
                    )->Some_0;
                }
            },
            Ok(None) => {},
            Err(_) => {
                return None;
            },
        }
        assert(main_descriptor.directory_entry@ =~= sector.subrange(156, 190));
        let root_directory = ISODirectoryRecord::from_bytes(
            main_descriptor.directory_entry.as_slice(),
        );
        Some(ISO9660 { root_directory, has_joliet, device })
    }

    /// The volume descriptors, in order, up to the Terminator. A failed read
    /// ends the list early.
    pub fn descriptors(&mut self) -> (r: Vec<Descriptor>)
        ensures
            final(self).same_volume(*old(self)),
            r@.len() <= scan(old(self).image(), PRIMARY_VOLUME_DESCRIPTOR_POSITION as int).len(),
            forall|k: int|
                0 <= k < r@.len() ==> #[trigger] r@[k].decodes(
                    scan(old(self).image(), PRIMARY_VOLUME_DESCRIPTOR_POSITION as int)[k],
                ),
    {
        let ghost img = self.image();
        let ghost all = scan(img, PRIMARY_VOLUME_DESCRIPTOR_POSITION as int);
        let mut it = DescriptorIterator::new();
        let mut r: Vec<Descriptor> = Vec::new();
        loop
            invariant
                self.same_volume(*old(self)),
                img == self.image(),
                img == old(self).image(),
                all == scan(img, PRIMARY_VOLUME_DESCRIPTOR_POSITION as int),
                r@.len() <= all.len(),
                scan(img, it.position()) =~= all.subrange(r@.len() as int, all.len() as int),
                forall|k: int| 0 <= k < r@.len() ==> #[trigger] r@[k].decodes(all[k]),
            decreases all.len() - r@.len(),
        {
            match it.next(&mut self.device) {
                Some(d) => {
                    r.push(d);
                },
                None => {
                    return r;
                },
            }
        }
    }

    /// A cursor over the directory whose extent starts at block `start_lba`.
    pub fn read_directory(&self, start_lba: usize) -> (r: DirectoryIter)
        requires
            start_lba * DISK_SECTOR_SIZE <= usize::MAX,
        ensures
            r.offset() == start_lba * DISK_SECTOR_SIZE,
    {
        DirectoryIter::new(start_lba * DISK_SECTOR_SIZE)
    }

    /// A cursor over the root directory.
    pub fn read_root(&self) -> (r: DirectoryIter)
        ensures
            r.offset() == self.root_record().lba.lsb * DISK_SECTOR_SIZE,
    {
        DirectoryIter::at(self.root_directory.lba.lsb as u64 * DISK_SECTOR_SIZE as u64)
    }

    /// The root directory record.
    pub fn root(&self) -> (r: &ISODirectoryRecord)
        ensures
            *r == self.root_record(),
    {
        &self.root_directory
    }

    /// Whether names are decoded as Joliet.
    pub fn has_joliet(&self) -> (r: bool)
        ensures
            r == self.joliet(),
    {
        self.has_joliet
    }

    /// Every entry of the directory whose extent starts at block `start_lba`.
    pub fn read_directory_entries(&mut self, start_lba: u32) -> (r: Result<
        Vec<ISODirectoryEntry>,
        IsoError,
    >)
        ensures
            final(self).same_volume(*old(self)),
            r matches Ok(v) ==> dir_listing(
                old(self).image(),
                start_lba * DISK_SECTOR_SIZE,
                old(self).joliet(),
            ) == Ok::<Seq<EntryView>, IsoError>(v@.map_values(|e: ISODirectoryEntry| e@)),
            r matches Err(x) ==> (x == IsoError::Io || dir_listing(
                old(self).image(),
                start_lba * DISK_SECTOR_SIZE,
                old(self).joliet(),
            ) == Err::<Seq<EntryView>, IsoError>(x)),
    {
        let ghost img = self.image();
        let ghost j = self.joliet();
        let ghost start = start_lba * DISK_SECTOR_SIZE;
        let mut it = DirectoryIter::at(start_lba as u64 * DISK_SECTOR_SIZE as u64);
        let mut entries: Vec<ISODirectoryEntry> = Vec::new();
        loop
            invariant
                self.same_volume(*old(self)),
                img == old(self).image(),
                j == old(self).joliet(),
                start == start_lba * DISK_SECTOR_SIZE,
                dir_listing(img, start, j) == match dir_listing(img, it.offset(), j) {
                    Ok(rest) => Ok(entries@.map_values(|e: ISODirectoryEntry| e@) + rest),
                    Err(x) => Err(x),
                },
            decreases img.len() + 256 - it.offset(),
        {
            let ghost off = it.offset();
            match it.next(self) {
                Ok(Some(e)) => {
                    let ghost ev = e@;
                    let ghost before = entries@.map_values(|x: ISODirectoryEntry| x@);
                    entries.push(e);
                    proof {
                        let after = entries@.map_values(|x: ISODirectoryEntry| x@);
                        assert(after =~= before.push(ev));
                        match dir_listing(img, it.offset(), j) {
                            Ok(rest) => {
                                assert(before + (seq![ev] + rest) =~= after + rest);
                            },
                            _ => {},
                        }
                    }
                },
                Ok(None) => {
                    proof {
                        let m = entries@.map_values(|x: ISODirectoryEntry| x@);
                        assert(m + Seq::<EntryView>::empty() =~= m);
                    }
                    return Ok(entries);
                },
                Err(x) => {
                    return Err(x);
                },
            }
        }
    }

    /// Reads `data.len()` bytes of the file `directory_entry` from `offset`.
    /// `None` for a directory, for a range past the end of the file, and when
    /// the source fails.
    pub fn read_file(
        &mut self,
        directory_entry: &ISODirectoryEntry,
        offset: usize,
        data: &mut [u8],
    ) -> (r: Option<()>)
        ensures
            final(self).same_volume(*old(self)),
            final(data)@.len() == old(data)@.len(),
            file_bytes(
                old(self).image(),
                directory_entry.record,
                offset as int,
                old(data)@.len() as int,
            ) is None ==> r is None,
            r is Some ==> file_bytes(
                old(self).image(),
                directory_entry.record,
                offset as int,
                old(data)@.len() as int,
            ) == Some(final(data)@),
    {
        if (directory_entry.record.flags & FLAG_DIRECTORY) != 0 {
            return None;
        }
        let position = directory_entry.lsb_position() as usize;
        let data_length = directory_entry.file_size() as usize;
        if data.len() > data_length || offset > data_length - data.len() {
            return None;
        }
        if position > (usize::MAX - data_length) / DISK_SECTOR_SIZE {
            return None;
        }
        let start = position * DISK_SECTOR_SIZE + offset;
        self.device.read(start, data)
    }

    fn read_bytes(&mut self, position: usize, n: usize) -> (r: Option<Vec<u8>>)
        ensures
            final(self).same_volume(*old(self)),
            r is Some ==> bytes_at(old(self).image(), position as int, n as int) == Some(
                r->Some_0@,
            ),
            bytes_at(old(self).image(), position as int, n as int) is None ==> r is None,
    {
        let mut buf: Vec<u8> = vec![0u8; n];
        match self.device.read(position, buf.as_mut_slice()) {
            Some(()) => Some(buf),
            None => None,
        }
    }

    fn read_joliet_name(&mut self, byte_offset: usize, len: usize) -> (r: Result<String, IsoError>)
        requires
            len <= 255,
        ensures
            final(self).same_volume(*old(self)),
            r != Err::<String, IsoError>(IsoError::Io) ==> text_view(r) == joliet_name_at(
                old(self).image(),
                byte_offset as int,
                len as int,
            ),
    {
        let mut address = byte_offset;
        if address % 2 != 0 && len != 1 {
            if address == usize::MAX {
                return Err(IsoError::Io);
            }
            address = address + 1;
        }
        let ucs2_name = match self.read_bytes(address, len) {
            Some(b) => b,
            None => {
                return Err(IsoError::Io);
            },
        };
        match parse_name(ucs2_name.as_slice()) {
            Some(n) => Ok(n),
            None => Err(IsoError::MalformedName),
        }
    }

    fn read_rock_ridge_name(&mut self, byte_offset: usize, main_part_size: usize, length: usize) -> (r:
        Result<Option<String>, IsoError>)
        requires
            main_part_size <= length <= 255,
        ensures
            final(self).same_volume(*old(self)),
            r != Err::<Option<String>, IsoError>(IsoError::Io) ==> opt_text_view(r)
                == rock_ridge_name_at(
                old(self).image(),
                byte_offset as int,
                main_part_size as int,
                length as int,
            ),
    {
        if byte_offset > usize::MAX - 256 {
            return Err(IsoError::Io);
        }
        let mut address = byte_offset + main_part_size;
        if address % 2 != 0 {
            address = address + 1;
        }
        let end = byte_offset + length;
        let extension_data: Vec<u8> = if address <= end {
            match self.read_bytes(address, end - address) {
                Some(b) => b,
                None => {
                    return Err(IsoError::Io);
                },
            }
        } else {
            Vec::new()
        };
        match crate::extensions::rock_ridge::first_name(extension_data.as_slice()) {
            Ok(n) => Ok(n),
            Err(x) => Err(from_rr_error(x)),
        }
    }

    /// Decodes the directory record at byte offset `off`.
    pub(crate) fn read_entry_at(&mut self, position: u64) -> (r: Result<Option<ISODirectoryEntry>, IsoError>)
        ensures
            final(self).same_volume(*old(self)),
            r != Err::<Option<ISODirectoryEntry>, IsoError>(IsoError::Io) ==> entry_view(r)
                == dir_step(old(self).image(), position as int, old(self).joliet()),
            r matches Ok(Some(e)) ==> e.record.length >= RECORD_HEADER_SIZE,
    {
        if position > (usize::MAX - 512) as u64 {
            return Err(IsoError::Io);
        }
        let off = position as usize;
        let header = match self.read_bytes(off, RECORD_HEADER_SIZE) {
            Some(h) => h,
            None => {
                return Err(IsoError::Io);
            },
        };
        let record = ISODirectoryRecord::from_bytes(header.as_slice());
        if record.length == 0 {
            return Ok(None);
        }
        if (record.length as usize) < RECORD_HEADER_SIZE {
            return Err(IsoError::Malformed);
        }
        let name_len = record.file_identifier_length as usize;
        let name = if self.has_joliet {
            match self.read_joliet_name(off + RECORD_HEADER_SIZE, name_len) {
                Ok(n) => n,
                Err(e) => {
                    return Err(e);
                },
            }
        } else {
            let main_part_size = RECORD_HEADER_SIZE + name_len;
            if main_part_size > record.length as usize {
                return Err(IsoError::Malformed);
            }
            match self.read_rock_ridge_name(off, main_part_size, record.length as usize) {
                Ok(Some(n)) => n,
                Ok(None) => {
                    let literal = match self.read_bytes(off + RECORD_HEADER_SIZE, name_len) {
                        Some(b) => b,
                        None => {
                            return Err(IsoError::Io);
                        },
                    };
                    match literal_name_of(literal.as_slice()) {
                        Ok(n) => n,
                        Err(e) => {
                            return Err(e);
                        },
                    }
                },
                Err(e) => {
                    return Err(e);
                },
            }
        };
        Ok(Some(ISODirectoryEntry { record, name }))
    }
}

} // verus!
