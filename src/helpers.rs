use vstd::prelude::*;
use vstd::utf8::encode_utf8;
use crate::io::Read;
use crate::iter::DirectoryIter;
use crate::text::slash;
use crate::{
    dir_step, entry_view, is_dir_record, EntryView, ISO9660, ISODirectoryEntry, IsoError,
    DISK_SECTOR_SIZE,
};

verus! {

/// Byte value of the path separator `/`.
pub const SEPARATOR: u8 = 0x2F;

/// The segments of `b` from `i` on, `cur` being the segment read so far.
pub open spec fn split_from(b: Seq<u8>, i: int, cur: Seq<u8>) -> Seq<Seq<u8>>
    decreases b.len() - i,
{
    if i >= b.len() || i < 0 {
        if cur.len() > 0 {
            seq![cur]
        } else {
            Seq::empty()
        }
    } else if b[i] == SEPARATOR {
        (if cur.len() > 0 {
            seq![cur]
        } else {
            Seq::empty()
        }) + split_from(b, i + 1, Seq::empty())
    } else {
        split_from(b, i + 1, cur.push(b[i]))
    }
}

/// The non-empty `/`-separated segments of the path bytes `b`, in order.
pub open spec fn path_segments(b: Seq<u8>) -> Seq<Seq<u8>> {
    split_from(b, 0, Seq::empty())
}

/// The first entry of the directory extent at `off` whose name's UTF-8 bytes
/// are `seg`; `Ok(None)` when the directory ends without one.
pub open spec fn find_in_dir(img: Seq<u8>, off: int, joliet: bool, seg: Seq<u8>) -> Result<
    Option<EntryView>,
    IsoError,
>
    decreases img.len() - off,
{
    match dir_step(img, off, joliet) {
        Ok(Some(e)) => if encode_utf8(e.1) == seg {
            Ok(Some(e))
        } else {
            let next = off + e.0.length;
            if off < next <= img.len() {
                find_in_dir(img, next, joliet, seg)
            } else {
                Err(IsoError::Io)
            }
        },
        Ok(None) => Ok(None),
        Err(x) => Err(x),
    }
}

/// The entry that the segments `segs` lead to from the directory at `off`:
/// each segment is looked up in the directory the previous one named, and
/// only a directory can be passed through.
pub open spec fn resolve(img: Seq<u8>, joliet: bool, off: int, segs: Seq<Seq<u8>>) -> Result<
    Option<EntryView>,
    IsoError,
>
    decreases segs.len(),
{
    if segs.len() == 0 {
        Ok(None)
    } else {
        match find_in_dir(img, off, joliet, segs[0]) {
            Ok(Some(e)) => if segs.len() == 1 {
                Ok(Some(e))
            } else if !is_dir_record(e.0) {
                Ok(None)
            } else {
                resolve(img, joliet, e.0.lba.lsb * 2048, segs.drop_first())
            },
            other => other,
        }
    }
}

/// Splits a path into its non-empty `/`-separated segments.
pub fn split_path(b: &[u8]) -> (r: Vec<Vec<u8>>)
    ensures
        r@.map_values(|v: Vec<u8>| v@) == path_segments(b@),
{
    let n = b.len();
    let mut acc: Vec<Vec<u8>> = Vec::new();
    let mut cur: Vec<u8> = Vec::new();
    let mut i: usize = 0;
    while i < n
        invariant
            n == b@.len(),
            i <= n,
            path_segments(b@) == acc@.map_values(|v: Vec<u8>| v@) + split_from(b@, i as int, cur@),
        decreases n - i,
    {
        let ghost before = acc@.map_values(|v: Vec<u8>| v@);
        if b[i] == SEPARATOR {
            if cur.len() > 0 {
                let ghost c = cur@;
                acc.push(cur);
                proof {
                    assert(acc@.map_values(|v: Vec<u8>| v@) =~= before.push(c));
                    assert(before + (seq![c] + split_from(b@, i + 1, Seq::empty())) =~= acc@.map_values(
                        |v: Vec<u8>| v@,
                    ) + split_from(b@, i + 1, Seq::empty()));
                }
            } else {
                assert(Seq::<Seq<u8>>::empty() + split_from(b@, i + 1, Seq::empty()) =~= split_from(
                    b@,
                    i + 1,
                    Seq::empty(),
                ));
            }
            cur = Vec::new();
            assert(cur@ =~= Seq::<u8>::empty());
        } else {
            cur.push(b[i]);
        }
        i = i + 1;
    }
    if cur.len() > 0 {
        let ghost before = acc@.map_values(|v: Vec<u8>| v@);
        let ghost c = cur@;
        acc.push(cur);
        assert(acc@.map_values(|v: Vec<u8>| v@) =~= before + seq![c]);
    } else {
        assert(acc@.map_values(|v: Vec<u8>| v@) + Seq::<Seq<u8>>::empty() =~= acc@.map_values(
            |v: Vec<u8>| v@,
        ));
    }
    acc
}

/// Whether two byte strings are equal.
fn bytes_eq(a: &[u8], b: &[u8]) -> (r: bool)
    ensures
        r == (a@ == b@),
{
    if a.len() != b.len() {
        return false;
    }
    let mut i: usize = 0;
    while i < a.len()
        invariant
            a@.len() == b@.len(),
            i <= a@.len(),
            a@.subrange(0, i as int) =~= b@.subrange(0, i as int),
        decreases a@.len() - i,
    {
        if a[i] != b[i] {
            assert(a@[i as int] != b@[i as int]);
            return false;
        }
        i = i + 1;
    }
    assert(a@ =~= a@.subrange(0, a@.len() as int));
    assert(b@ =~= b@.subrange(0, b@.len() as int));
    true
}

/// Scans the directory under `dir` for the first entry named `seg`.
fn find_entry<D: Read>(iso: &mut ISO9660<D>, dir: &mut DirectoryIter, seg: &[u8]) -> (r: Result<
    Option<ISODirectoryEntry>,
    IsoError,
>)
    ensures
        final(iso).same_volume(*old(iso)),
        r != Err::<Option<ISODirectoryEntry>, IsoError>(IsoError::Io) ==> entry_view(r)
            == find_in_dir(old(iso).image(), old(dir).offset(), old(iso).joliet(), seg@),
{
    let ghost img = iso.image();
    let ghost j = iso.joliet();
    loop
        invariant
            iso.same_volume(*old(iso)),
            img == old(iso).image(),
            j == old(iso).joliet(),
            find_in_dir(img, old(dir).offset(), j, seg@) == find_in_dir(img, dir.offset(), j, seg@),
        decreases img.len() + 256 - dir.offset(),
    {
        match dir.next(iso) {
            Ok(Some(e)) => {
                if bytes_eq(e.name.as_str().as_bytes(), seg) {
                    return Ok(Some(e));
                }
            },
            Ok(None) => {
                return Ok(None);
            },
            Err(x) => {
                return Err(x);
            },
        }
    }
}

/// Finds the entry at a `/`-separated path. Empty segments are ignored; a
/// path with none names the root, returned under the name "/". `Ok(None)`
/// when a segment is missing or names a file before the last one.
pub fn get_directory_entry_by_path<D: Read>(iso: &mut ISO9660<D>, path: &str) -> (r: Result<
    Option<ISODirectoryEntry>,
    IsoError,
>)
    ensures
        final(iso).same_volume(*old(iso)),
        path_segments(encode_utf8(path@)).len() == 0 ==> (r matches Ok(Some(e)) && e.record
            == old(iso).root_record() && e.name@ == seq!['/']),
        path_segments(encode_utf8(path@)).len() > 0 && r != Err::<
            Option<ISODirectoryEntry>,
            IsoError,
        >(IsoError::Io) ==> entry_view(r) == resolve(
            old(iso).image(),
            old(iso).joliet(),
            old(iso).root_record().lba.lsb * 2048,
            path_segments(encode_utf8(path@)),
        ),
{
    let stems = split_path(path.as_bytes());
    let ghost segs = stems@.map_values(|v: Vec<u8>| v@);
    if stems.len() == 0 {
        return Ok(Some(ISODirectoryEntry { record: *iso.root(), name: slash() }));
    }
    let ghost img = iso.image();
    let ghost j = iso.joliet();
    let ghost root_off = iso.root_record().lba.lsb * 2048;
    let mut dir = iso.read_root();
    let mut k: usize = 0;
    assert(segs.subrange(0, segs.len() as int) =~= segs);
    loop
        invariant
            iso.same_volume(*old(iso)),
            img == old(iso).image(),
            j == old(iso).joliet(),
            segs == stems@.map_values(|v: Vec<u8>| v@),
            segs == path_segments(encode_utf8(path@)),
            root_off == old(iso).root_record().lba.lsb * 2048,
            k < stems@.len(),
            resolve(img, j, root_off, segs) == resolve(
                img,
                j,
                dir.offset(),
                segs.subrange(k as int, segs.len() as int),
            ),
        decreases stems@.len() - k,
    {
        let ghost rest = segs.subrange(k as int, segs.len() as int);
        assert(rest[0] == stems@[k as int]@);
        match find_entry(iso, &mut dir, stems[k].as_slice()) {
            Ok(Some(e)) => {
                if k == stems.len() - 1 {
                    return Ok(Some(e));
                }
                if e.is_file() {
                    return Ok(None);
                }
                dir = DirectoryIter::at(e.record.lba.lsb as u64 * DISK_SECTOR_SIZE as u64);
                assert(rest.drop_first() =~= segs.subrange(k + 1, segs.len() as int));
                k = k + 1;
            },
            Ok(None) => {
                return Ok(None);
            },
            Err(x) => {
                return Err(x);
            },
        }
    }
}

} // verus!
