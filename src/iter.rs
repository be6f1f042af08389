use vstd::prelude::*;
use crate::descriptors::{type_of_byte, Descriptor, DescriptorType, DESCRIPTOR_SIZE};
use crate::io::Read;
use crate::{
    bytes_at, dir_step, entry_view, EntryView, ISO9660, ISODirectoryEntry, IsoError,
    PRIMARY_VOLUME_DESCRIPTOR_POSITION,
};

verus! {

/// The descriptor sectors of `img` from `pos` on, one every 2048 bytes. The
/// sequence ends before a Terminator, before a sector whose type byte names
/// no descriptor kind, and at the end of `img`.
pub open spec fn scan(img: Seq<u8>, pos: int) -> Seq<Seq<u8>>
    decreases img.len() - pos,
{
    if 0 <= pos && pos + 2048 <= img.len() {
        let s = img.subrange(pos, pos + 2048);
        if s[0] == 0xff || type_of_byte(s[0]) is None {
            Seq::empty()
        } else {
            seq![s] + scan(img, pos + 2048)
        }
    } else {
        Seq::empty()
    }
}

/// The first sector of `sectors` whose type is `t`.
pub open spec fn first_of_type(sectors: Seq<Seq<u8>>, t: DescriptorType) -> Option<Seq<u8>>
    decreases sectors.len(),
{
    if sectors.len() == 0 {
        None
    } else if type_of_byte(sectors[0][0]) == Some(t) {
        Some(sectors[0])
    } else {
        first_of_type(sectors.drop_first(), t)
    }
}

/// `img` holds, from `pos` on, `n` descriptor sectors of known types other
/// than Terminator, then a Terminator sector.
pub open spec fn descriptors_then_terminator(img: Seq<u8>, pos: int, n: nat) -> bool {
    &&& 0 <= pos
    &&& pos + 2048 * (n + 1) <= img.len()
    &&& forall|k: int|
        0 <= k < n ==> #[trigger] img[pos + 2048 * k] != 0xff && type_of_byte(
            img[pos + 2048 * k],
        ) is Some
    &&& img[pos + 2048 * n] == 0xff
}

/// On a volume that writes `n` descriptors and then a Terminator, scanning
/// from `pos` yields exactly those `n` sectors and stops at the Terminator.
pub proof fn lemma_scan_stops_at_terminator(img: Seq<u8>, pos: int, n: nat)
    requires
        descriptors_then_terminator(img, pos, n),
    ensures
        scan(img, pos).len() == n,
        forall|k: int|
            0 <= k < n ==> #[trigger] scan(img, pos)[k] == img.subrange(
                pos + 2048 * k,
                pos + 2048 * k + 2048,
            ),
    decreases n,
{
    if n == 0 {
        assert(img.subrange(pos, pos + 2048)[0] == img[pos]);
    } else {
        assert(img[pos + 2048 * 0] != 0xff);
        assert(img.subrange(pos, pos + 2048)[0] == img[pos]);
        let m = (n - 1) as nat;
        assert forall|k: int| 0 <= k < m implies #[trigger] img[(pos + 2048) + 2048 * k] != 0xff
            && type_of_byte(img[(pos + 2048) + 2048 * k]) is Some by {
            assert((pos + 2048) + 2048 * k == pos + 2048 * (k + 1));
            assert(img[pos + 2048 * (k + 1)] != 0xff);
        }
        assert(pos + 2048 + 2048 * m == pos + 2048 * n);
        lemma_scan_stops_at_terminator(img, pos + 2048, m);
        let s = img.subrange(pos, pos + 2048);
        assert(scan(img, pos) == seq![s] + scan(img, pos + 2048));
        assert forall|k: int| 0 <= k < n implies #[trigger] scan(img, pos)[k] == img.subrange(
            pos + 2048 * k,
            pos + 2048 * k + 2048,
        ) by {
            if k > 0 {
                assert(scan(img, pos)[k] == scan(img, pos + 2048)[k - 1]);
                assert((pos + 2048) + 2048 * (k - 1) == pos + 2048 * k);
            }
        }
    }
}

/// Listing a directory is restartable: two listings from the same offset of
/// the same bytes are identical.
pub proof fn lemma_directory_restartable(
    img: Seq<u8>,
    off: int,
    joliet: bool,
    first: Seq<EntryView>,
    second: Seq<EntryView>,
)
    requires
        dir_listing(img, off, joliet) == Ok::<Seq<EntryView>, IsoError>(first),
        dir_listing(img, off, joliet) == Ok::<Seq<EntryView>, IsoError>(second),
    ensures
        first == second,
{
}

/// Reads the descriptor sector at `position`: `Ok(None)` where the scan
/// ends there (a Terminator or an unknown type byte).
pub(crate) fn read_descriptor<D: Read>(device: &mut D, position: usize) -> (r: Result<
    Option<Descriptor>,
    IsoError,
>)
    ensures
        final(device).image() == old(device).image(),
        r matches Ok(None) ==> bytes_at(old(device).image(), position as int, 2048) is Some,
        r is Ok && scan(old(device).image(), position as int).len() == 0 ==> r matches Ok(None),
        r is Ok && scan(old(device).image(), position as int).len() > 0 ==> (r matches Ok(Some(d))
            && d.decodes(scan(old(device).image(), position as int)[0])),
        r is Ok && scan(old(device).image(), position as int).len() > 0 ==> scan(
            old(device).image(),
            position as int,
        ).drop_first() =~= scan(old(device).image(), position + 2048),
        bytes_at(old(device).image(), position as int, 2048) is None ==> r is Err,
{
    let mut buffer: Vec<u8> = vec![0u8; DESCRIPTOR_SIZE];
    if device.read(position, buffer.as_mut_slice()).is_none() {
        return Err(IsoError::Io);
    }
    let ghost img = old(device).image();
    let ghost s = img.subrange(position as int, position + 2048);
    assert(buffer@ == s);
    if buffer[0] == 0xff {
        return Ok(None);
    }
    match Descriptor::from_sector(buffer.as_slice()) {
        Some(d) => {
            assert(scan(img, position as int) =~= seq![s] + scan(img, position + 2048));
            assert((seq![s] + scan(img, position + 2048)).drop_first() =~= scan(img, position + 2048));
            Ok(Some(d))
        },
        None => Ok(None),
    }
}

/// A cursor over the volume descriptors, from the first one on.
pub struct DescriptorIterator {
    position: usize,
}

impl DescriptorIterator {
    /// The byte offset of the next descriptor.
    pub closed spec fn position(&self) -> int {
        self.position as int
    }

    /// A cursor at the first volume descriptor.
    pub fn new() -> (r: Self)
        ensures
            r.position() == PRIMARY_VOLUME_DESCRIPTOR_POSITION,
    {
        Self { position: PRIMARY_VOLUME_DESCRIPTOR_POSITION }
    }

    /// The next descriptor; `None` at a Terminator, at a sector of unknown
    /// type, or when the source fails to read.
    pub fn next<D: Read>(&mut self, device: &mut D) -> (r: Option<Descriptor>)
        ensures
            final(device).image() == old(device).image(),
            scan(old(device).image(), old(self).position()).len() == 0 ==> r is None,
            r is Some ==> r->Some_0.decodes(scan(old(device).image(), old(self).position())[0])
                && scan(old(device).image(), old(self).position()).len() > 0 && scan(
                old(device).image(),
                final(self).position(),
            ) =~= scan(old(device).image(), old(self).position()).drop_first(),
    {
        match read_descriptor(device, self.position) {
            Ok(Some(d)) => {
                if self.position > usize::MAX - DESCRIPTOR_SIZE {
                    return None;
                }
                self.position = self.position + DESCRIPTOR_SIZE;
                Some(d)
            },
            _ => None,
        }
    }
}

/// The entries of the directory extent at `off` of `img`, up to the first
/// record of length 0, or the failure that stops the listing.
pub open spec fn dir_listing(img: Seq<u8>, off: int, joliet: bool) -> Result<Seq<EntryView>, IsoError>
    decreases img.len() - off,
{
    match dir_step(img, off, joliet) {
        Ok(Some(e)) => {
            let next = off + e.0.length;
            if off < next <= img.len() {
                match dir_listing(img, next, joliet) {
                    Ok(rest) => Ok(seq![e] + rest),
                    Err(x) => Err(x),
                }
            } else {
                Err(IsoError::Io)
            }
        },
        Ok(None) => Ok(Seq::empty()),
        Err(x) => Err(x),
    }
}

/// A cursor over the entries of one directory extent.
pub struct DirectoryIter {
    byte_offset: u64,
}

impl DirectoryIter {
    /// The byte offset of the next record.
    pub closed spec fn offset(&self) -> int {
        self.byte_offset as int
    }

    /// A cursor at the record at `byte_offset`.
    pub fn new(byte_offset: usize) -> (r: Self)
        ensures
            r.offset() == byte_offset,
    {
        Self { byte_offset: byte_offset as u64 }
    }

    pub(crate) fn at(byte_offset: u64) -> (r: Self)
        ensures
            r.offset() == byte_offset,
    {
        Self { byte_offset }
    }

    /// The next entry of the directory; `Ok(None)` at its end. The cursor
    /// moves past the entry returned, and stays where it is otherwise.
    pub fn next<D: Read>(&mut self, iso: &mut ISO9660<D>) -> (r: Result<
        Option<ISODirectoryEntry>,
        IsoError,
    >)
        ensures
            final(iso).same_volume(*old(iso)),
            r != Err::<Option<ISODirectoryEntry>, IsoError>(IsoError::Io) ==> entry_view(r)
                == dir_step(old(iso).image(), old(self).offset(), old(iso).joliet()),
            r matches Ok(Some(e)) ==> (final(self).offset() == old(self).offset()
                + e.record.length && e.record.length >= 33),
            !(r matches Ok(Some(_))) ==> final(self).offset() == old(self).offset(),
    {
        let r = iso.read_entry_at(self.byte_offset);
        match r {
            Ok(Some(e)) => {
                if self.byte_offset > u64::MAX - 256 {
                    return Err(IsoError::Io);
                }
                self.byte_offset = self.byte_offset + e.record.length as u64;
                Ok(Some(e))
            },
            other => other,
        }
    }
}

} // verus!
