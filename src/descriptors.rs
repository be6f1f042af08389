use vstd::prelude::*;
use crate::types::{
    be_bytes_u32, be_u32, dual_u32, le_bytes_u32, le_u32, lemma_u32_bytes, push_be_u32, push_le_u32,
    read_be_u32, read_dual_u32, read_le_u32, LSB_MSB,
};

verus! {

/// Size in bytes of a volume descriptor sector.
pub const DESCRIPTOR_SIZE: usize = 2048;

/// Size in bytes of a descriptor's type-specific payload.
pub const PAYLOAD_SIZE: usize = 2041;

/// The kind of a volume descriptor, from its first byte.
#[derive(Copy, Clone, Debug, PartialEq, Eq, Structural)]
pub enum DescriptorType {
    BootRecord,
    PrimaryVolume,
    SupplementaryVolume,
    VolumePartition,
    Terminator,
}

/// The descriptor kind that type byte `b` names, if any.
pub open spec fn type_of_byte(b: u8) -> Option<DescriptorType> {
    if b == 0 {
        Some(DescriptorType::BootRecord)
    } else if b == 1 {
        Some(DescriptorType::PrimaryVolume)
    } else if b == 2 {
        Some(DescriptorType::SupplementaryVolume)
    } else if b == 3 {
        Some(DescriptorType::VolumePartition)
    } else if b == 0xff {
        Some(DescriptorType::Terminator)
    } else {
        None
    }
}

impl DescriptorType {
    /// The descriptor kind that type byte `b` names, if any.
    pub fn from_byte(b: u8) -> (r: Option<DescriptorType>)
        ensures
            r == type_of_byte(b),
    {
        if b == 0 {
            Some(DescriptorType::BootRecord)
        } else if b == 1 {
            Some(DescriptorType::PrimaryVolume)
        } else if b == 2 {
            Some(DescriptorType::SupplementaryVolume)
        } else if b == 3 {
            Some(DescriptorType::VolumePartition)
        } else if b == 0xff {
            Some(DescriptorType::Terminator)
        } else {
            None
        }
    }
}

/// One volume descriptor sector: type, standard identifier, version and
/// payload.
pub struct Descriptor {
    pub desc_type: DescriptorType,
    pub id: [u8; 5],
    pub version: u8,
    pub data: Vec<u8>,
}

impl Descriptor {
    /// This descriptor is the one that the 2048-byte sector `s` holds.
    pub open spec fn decodes(&self, s: Seq<u8>) -> bool {
        &&& s.len() == DESCRIPTOR_SIZE
        &&& type_of_byte(s[0]) == Some(self.desc_type)
        &&& self.id@ == s.subrange(1, 6)
        &&& self.version == s[6]
        &&& self.data@ == s.subrange(7, DESCRIPTOR_SIZE as int)
    }

    /// Decodes a descriptor sector; `None` when its type byte names no
    /// descriptor kind.
    pub fn from_sector(s: &[u8]) -> (r: Option<Descriptor>)
        requires
            s@.len() == DESCRIPTOR_SIZE,
        ensures
            r is Some <==> type_of_byte(s@[0]) is Some,
            r is Some ==> r->Some_0.decodes(s@),
    {
        let t = match DescriptorType::from_byte(s[0]) {
            Some(t) => t,
            None => {
                return None;
            },
        };
        let id = [s[1], s[2], s[3], s[4], s[5]];
        assert(id@ =~= s@.subrange(1, 6));
        Some(Descriptor { desc_type: t, id, version: s[6], data: copy_bytes(s, 7, PAYLOAD_SIZE) })
    }

    /// The payload read as a Primary Volume Descriptor, when this is one.
    pub fn try_as_pvd(&self) -> (r: Option<PrimarySupplementaryVolumeDescriptor>)
        ensures
            r is Some <==> self.desc_type == DescriptorType::PrimaryVolume && self.data@.len()
                >= PAYLOAD_SIZE,
            r is Some ==> r->Some_0.decodes(self.data@),
    {
        if self.desc_type == DescriptorType::PrimaryVolume {
            PrimarySupplementaryVolumeDescriptor::from_payload(self.data.as_slice())
        } else {
            None
        }
    }

    /// The payload read as a Supplementary Volume Descriptor, when this is one.
    pub fn try_as_svd(&self) -> (r: Option<PrimarySupplementaryVolumeDescriptor>)
        ensures
            r is Some <==> self.desc_type == DescriptorType::SupplementaryVolume
                && self.data@.len() >= PAYLOAD_SIZE,
            r is Some ==> r->Some_0.decodes(self.data@),
    {
        if self.desc_type == DescriptorType::SupplementaryVolume {
            PrimarySupplementaryVolumeDescriptor::from_payload(self.data.as_slice())
        } else {
            None
        }
    }
}

/// The fixed layout shared by Primary and Supplementary Volume Descriptors.
/// Byte fields keep their on-disk bytes; the path-table locations of the
/// `m` kind are stored big-endian, the others little-endian.
pub struct PrimarySupplementaryVolumeDescriptor {
    pub unused00: u8,
    pub system_name: Vec<u8>,
    pub label: Vec<u8>,
    pub unused01: Vec<u8>,
    pub volume_space_size: LSB_MSB<u32>,
    pub un_used02: Vec<u8>,
    pub volume_set_size: u32,
    pub volume_sequence_number: u32,
    pub logical_block_size: u32,
    pub path_table_size: LSB_MSB<u32>,
    pub loc_of_type_l_path_table: u32,
    pub loc_of_opti_l_path_table: u32,
    pub loc_of_type_m_path_table: u32,
    pub loc_of_opti_m_path_table: u32,
    pub directory_entry: Vec<u8>,
    pub volume_set_id: Vec<u8>,
    pub publisher_id: Vec<u8>,
    pub data_preparer_id: Vec<u8>,
    pub application_id: Vec<u8>,
    pub copyright_file_id: Vec<u8>,
    pub abstract_file_id: Vec<u8>,
    pub bibliographic_file_id: Vec<u8>,
    pub volume_creation_date: Vec<u8>,
    pub volume_modification_date: Vec<u8>,
    pub volume_expiration_date: Vec<u8>,
    pub volume_effective_date: Vec<u8>,
    pub file_structure_version: u8,
    pub unused03: u8,
    pub application_used: Vec<u8>,
    pub reserved: Vec<u8>,
}

impl PrimarySupplementaryVolumeDescriptor {
    /// Every field holds what the payload `p` holds at its offset.
    pub open spec fn decodes(&self, p: Seq<u8>) -> bool {
        &&& self.unused00 == p[0]
        &&& self.system_name@ == p.subrange(1, 33)
        &&& self.label@ == p.subrange(33, 65)
        &&& self.unused01@ == p.subrange(65, 73)
        &&& self.volume_space_size == dual_u32(p, 73)
        &&& self.un_used02@ == p.subrange(81, 113)
        &&& self.volume_set_size == le_u32(p, 113)
        &&& self.volume_sequence_number == le_u32(p, 117)
        &&& self.logical_block_size == le_u32(p, 121)
        &&& self.path_table_size == dual_u32(p, 125)
        &&& self.loc_of_type_l_path_table == le_u32(p, 133)
        &&& self.loc_of_opti_l_path_table == le_u32(p, 137)
        &&& self.loc_of_type_m_path_table == be_u32(p, 141)
        &&& self.loc_of_opti_m_path_table == be_u32(p, 145)
        &&& self.directory_entry@ == p.subrange(149, 183)
        &&& self.volume_set_id@ == p.subrange(183, 311)
        &&& self.publisher_id@ == p.subrange(311, 439)
        &&& self.data_preparer_id@ == p.subrange(439, 567)
        &&& self.application_id@ == p.subrange(567, 695)
        &&& self.copyright_file_id@ == p.subrange(695, 732)
        &&& self.abstract_file_id@ == p.subrange(732, 769)
        &&& self.bibliographic_file_id@ == p.subrange(769, 806)
        &&& self.volume_creation_date@ == p.subrange(806, 823)
        &&& self.volume_modification_date@ == p.subrange(823, 840)
        &&& self.volume_expiration_date@ == p.subrange(840, 857)
        &&& self.volume_effective_date@ == p.subrange(857, 874)
        &&& self.file_structure_version == p[874]
        &&& self.unused03 == p[875]
        &&& self.application_used@ == p.subrange(876, 1388)
        &&& self.reserved@ == p.subrange(1388, 2041)
    }

    /// Each byte field has the length of its place in the layout.
    pub open spec fn wf(&self) -> bool {
        &&& self.system_name@.len() == 32
        &&& self.label@.len() == 32
        &&& self.unused01@.len() == 8
        &&& self.un_used02@.len() == 32
        &&& self.directory_entry@.len() == 34
        &&& self.volume_set_id@.len() == 128
        &&& self.publisher_id@.len() == 128
        &&& self.data_preparer_id@.len() == 128
        &&& self.application_id@.len() == 128
        &&& self.copyright_file_id@.len() == 37
        &&& self.abstract_file_id@.len() == 37
        &&& self.bibliographic_file_id@.len() == 37
        &&& self.volume_creation_date@.len() == 17
        &&& self.volume_modification_date@.len() == 17
        &&& self.volume_expiration_date@.len() == 17
        &&& self.volume_effective_date@.len() == 17
        &&& self.application_used@.len() == 512
        &&& self.reserved@.len() == 653
    }

    /// The descriptor's payload bytes, field after field in on-disk order.
    #[verifier::rlimit(50)]
    pub fn as_slice(&self) -> (r: Vec<u8>)
        requires
            self.wf(),
        ensures
            r@.len() == PAYLOAD_SIZE,
            self.decodes(r@),
    {
        let mut out: Vec<u8> = Vec::with_capacity(PAYLOAD_SIZE);
        out.push(self.unused00);
        append_bytes(&mut out, self.system_name.as_slice());
        append_bytes(&mut out, self.label.as_slice());
        append_bytes(&mut out, self.unused01.as_slice());
        push_le_u32(&mut out, self.volume_space_size.lsb);
        push_be_u32(&mut out, self.volume_space_size.msb);
        append_bytes(&mut out, self.un_used02.as_slice());
        push_le_u32(&mut out, self.volume_set_size);
        push_le_u32(&mut out, self.volume_sequence_number);
        push_le_u32(&mut out, self.logical_block_size);
        push_le_u32(&mut out, self.path_table_size.lsb);
        push_be_u32(&mut out, self.path_table_size.msb);
        push_le_u32(&mut out, self.loc_of_type_l_path_table);
        push_le_u32(&mut out, self.loc_of_opti_l_path_table);
        push_be_u32(&mut out, self.loc_of_type_m_path_table);
        push_be_u32(&mut out, self.loc_of_opti_m_path_table);
        append_bytes(&mut out, self.directory_entry.as_slice());
        append_bytes(&mut out, self.volume_set_id.as_slice());
        append_bytes(&mut out, self.publisher_id.as_slice());
        append_bytes(&mut out, self.data_preparer_id.as_slice());
        append_bytes(&mut out, self.application_id.as_slice());
        append_bytes(&mut out, self.copyright_file_id.as_slice());
        append_bytes(&mut out, self.abstract_file_id.as_slice());
        append_bytes(&mut out, self.bibliographic_file_id.as_slice());
        append_bytes(&mut out, self.volume_creation_date.as_slice());
        append_bytes(&mut out, self.volume_modification_date.as_slice());
        append_bytes(&mut out, self.volume_expiration_date.as_slice());
        append_bytes(&mut out, self.volume_effective_date.as_slice());
        out.push(self.file_structure_version);
        out.push(self.unused03);
        append_bytes(&mut out, self.application_used.as_slice());
        append_bytes(&mut out, self.reserved.as_slice());
        proof {
            lemma_u32_bytes(self.volume_space_size.lsb);
            lemma_u32_bytes(self.volume_space_size.msb);
            lemma_u32_bytes(self.volume_set_size);
            lemma_u32_bytes(self.volume_sequence_number);
            lemma_u32_bytes(self.logical_block_size);
            lemma_u32_bytes(self.path_table_size.lsb);
            lemma_u32_bytes(self.path_table_size.msb);
            lemma_u32_bytes(self.loc_of_type_l_path_table);
            lemma_u32_bytes(self.loc_of_opti_l_path_table);
            lemma_u32_bytes(self.loc_of_type_m_path_table);
            lemma_u32_bytes(self.loc_of_opti_m_path_table);
            assert(out@.len() == PAYLOAD_SIZE);
            assert(out@[0] == self.unused00);
            assert(out@.subrange(1, 33) =~= self.system_name@);
            assert(out@.subrange(33, 65) =~= self.label@);
            assert(out@.subrange(65, 73) =~= self.unused01@);
            assert(out@.subrange(73, 77) =~= le_bytes_u32(self.volume_space_size.lsb));
            assert(out@.subrange(77, 81) =~= be_bytes_u32(self.volume_space_size.msb));
            assert(out@.subrange(81, 113) =~= self.un_used02@);
            assert(out@.subrange(113, 117) =~= le_bytes_u32(self.volume_set_size));
            assert(out@.subrange(117, 121) =~= le_bytes_u32(self.volume_sequence_number));
            assert(out@.subrange(121, 125) =~= le_bytes_u32(self.logical_block_size));
            assert(out@.subrange(125, 129) =~= le_bytes_u32(self.path_table_size.lsb));
            assert(out@.subrange(129, 133) =~= be_bytes_u32(self.path_table_size.msb));
            assert(out@.subrange(133, 137) =~= le_bytes_u32(self.loc_of_type_l_path_table));
            assert(out@.subrange(137, 141) =~= le_bytes_u32(self.loc_of_opti_l_path_table));
            assert(out@.subrange(141, 145) =~= be_bytes_u32(self.loc_of_type_m_path_table));
            assert(out@.subrange(145, 149) =~= be_bytes_u32(self.loc_of_opti_m_path_table));
            assert(out@.subrange(149, 183) =~= self.directory_entry@);
            assert(out@.subrange(183, 311) =~= self.volume_set_id@);
            assert(out@.subrange(311, 439) =~= self.publisher_id@);
            assert(out@.subrange(439, 567) =~= self.data_preparer_id@);
            assert(out@.subrange(567, 695) =~= self.application_id@);
            assert(out@.subrange(695, 732) =~= self.copyright_file_id@);
            assert(out@.subrange(732, 769) =~= self.abstract_file_id@);
            assert(out@.subrange(769, 806) =~= self.bibliographic_file_id@);
            assert(out@.subrange(806, 823) =~= self.volume_creation_date@);
            assert(out@.subrange(823, 840) =~= self.volume_modification_date@);
            assert(out@.subrange(840, 857) =~= self.volume_expiration_date@);
            assert(out@.subrange(857, 874) =~= self.volume_effective_date@);
            assert(out@[874] == self.file_structure_version);
            assert(out@[875] == self.unused03);
            assert(out@.subrange(876, 1388) =~= self.application_used@);
            assert(out@.subrange(1388, 2041) =~= self.reserved@);
        }
        out
    }

    /// Decodes a descriptor payload; `None` when it is shorter than the layout.
    pub fn from_payload(p: &[u8]) -> (r: Option<PrimarySupplementaryVolumeDescriptor>)
        ensures
            r is Some <==> p@.len() >= PAYLOAD_SIZE,
            r is Some ==> r->Some_0.decodes(p@),
    {
        if p.len() < PAYLOAD_SIZE {
            return None;
        }
        Some(PrimarySupplementaryVolumeDescriptor {
            unused00: p[0],
            system_name: copy_bytes(p, 1, 32),
            label: copy_bytes(p, 33, 32),
            unused01: copy_bytes(p, 65, 8),
            volume_space_size: read_dual_u32(p, 73),
            un_used02: copy_bytes(p, 81, 32),
            volume_set_size: read_le_u32(p, 113),
            volume_sequence_number: read_le_u32(p, 117),
            logical_block_size: read_le_u32(p, 121),
            path_table_size: read_dual_u32(p, 125),
            loc_of_type_l_path_table: read_le_u32(p, 133),
            loc_of_opti_l_path_table: read_le_u32(p, 137),
            loc_of_type_m_path_table: read_be_u32(p, 141),
            loc_of_opti_m_path_table: read_be_u32(p, 145),
            directory_entry: copy_bytes(p, 149, 34),
            volume_set_id: copy_bytes(p, 183, 128),
            publisher_id: copy_bytes(p, 311, 128),
            data_preparer_id: copy_bytes(p, 439, 128),
            application_id: copy_bytes(p, 567, 128),
            copyright_file_id: copy_bytes(p, 695, 37),
            abstract_file_id: copy_bytes(p, 732, 37),
            bibliographic_file_id: copy_bytes(p, 769, 37),
            volume_creation_date: copy_bytes(p, 806, 17),
            volume_modification_date: copy_bytes(p, 823, 17),
            volume_expiration_date: copy_bytes(p, 840, 17),
            volume_effective_date: copy_bytes(p, 857, 17),
            file_structure_version: p[874],
            unused03: p[875],
            application_used: copy_bytes(p, 876, 512),
            reserved: copy_bytes(p, 1388, 653),
        })
    }
}

/// Appends the bytes of `b` to `out`.
pub fn append_bytes(out: &mut Vec<u8>, b: &[u8])
    ensures
        final(out)@ == old(out)@ + b@,
{
    let n = b.len();
    let mut i: usize = 0;
    while i < n
        invariant
            n == b@.len(),
            i <= n,
            out@ =~= old(out)@ + b@.subrange(0, i as int),
        decreases n - i,
    {
        out.push(b[i]);
        i = i + 1;
    }
    assert(b@.subrange(0, n as int) =~= b@);
}

/// A copy of the `len` bytes of `s` at `start`.
pub fn copy_bytes(s: &[u8], start: usize, len: usize) -> (r: Vec<u8>)
    requires
        start + len <= s@.len(),
    ensures
        r@ == s@.subrange(start as int, start + len),
{
    let n = s.len();
    let mut r: Vec<u8> = Vec::with_capacity(len);
    let mut i: usize = 0;
    while i < len
        invariant
            i <= len,
            n == s@.len(),
            start + len <= n,
            r@ =~= s@.subrange(start as int, start + i),
        decreases len - i,
    {
        r.push(s[start + i]);
        i = i + 1;
    }
    r
}

} // verus!
