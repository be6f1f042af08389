use vstd::prelude::*;
use vstd::utf8::{decode_utf8, valid_utf8};
use crate::text::{dot, dot_dot, utf8_string};
use crate::types::{be_u16, read_be_u16};

verus! {

/// The UTF-8 bytes of one UCS-2 code unit.
pub open spec fn utf8_of_unit(c: u16) -> Seq<u8> {
    if c < 0x80 {
        seq![c as u8]
    } else if c < 0x800 {
        seq![(0xC0 + c / 64) as u8, (0x80 + c % 64) as u8]
    } else {
        seq![(0xE0 + c / 4096) as u8, (0x80 + (c / 64) % 64) as u8, (0x80 + c % 64) as u8]
    }
}

/// The UTF-8 bytes of a sequence of UCS-2 code units, unit by unit.
pub open spec fn ucs2_to_utf8(u: Seq<u16>) -> Seq<u8>
    decreases u.len(),
{
    if u.len() == 0 {
        Seq::empty()
    } else {
        ucs2_to_utf8(u.drop_last()) + utf8_of_unit(u.last())
    }
}

/// The big-endian code units of `b`, two bytes each.
pub open spec fn be_units(b: Seq<u8>) -> Seq<u16> {
    Seq::new(b.len() / 2, |i: int| be_u16(b, 2 * i))
}

/// `s` without its trailing zero bytes.
pub open spec fn trim_nul(s: Seq<u8>) -> Seq<u8>
    decreases s.len(),
{
    if s.len() > 0 && s.last() == 0 {
        trim_nul(s.drop_last())
    } else {
        s
    }
}

/// The name that a Joliet file identifier `b` stands for, if it decodes.
///
/// A single byte 0 or byte pair 0 0 is the current directory "."; a single
/// byte 1 or pair 0 1 is the parent "..". Otherwise `b` is big-endian UCS-2,
/// padded with trailing NULs, which are dropped.
pub open spec fn joliet_name(b: Seq<u8>) -> Option<Seq<char>> {
    if b =~= seq![0u8] || b =~= seq![0u8, 0u8] {
        Some(seq!['.'])
    } else if b =~= seq![1u8] || b =~= seq![0u8, 1u8] {
        Some(seq!['.', '.'])
    } else if b.len() % 2 != 0 {
        None
    } else {
        let t = trim_nul(ucs2_to_utf8(be_units(b)));
        if valid_utf8(t) {
            Some(decode_utf8(t))
        } else {
            None
        }
    }
}

/// Relies on `ucs2::decode`: it writes the UTF-8 encoding of the units to the
/// front of `out`, one, two or three bytes per unit, and returns how many it
/// wrote; it fails only when `out` is too short, which three bytes per unit
/// never is.
#[verifier::external_body]
fn ucs2_decode(units: &[u16], out: &mut [u8]) -> (r: Option<usize>)
    ensures
        final(out)@.len() == old(out)@.len(),
        old(out)@.len() >= 3 * units@.len() ==> r is Some,
        r is Some ==> r->Some_0 <= old(out)@.len(),
        r is Some ==> final(out)@.subrange(0, r->Some_0 as int) == ucs2_to_utf8(units@),
{
    ucs2::decode(units, out).ok()
}

/// Decodes a Joliet file identifier into text.
pub fn parse_name(ucs2_name: &[u8]) -> (r: Option<String>)
    requires
        ucs2_name@.len() <= isize::MAX,
    ensures
        r is Some <==> joliet_name(ucs2_name@) is Some,
        r is Some ==> r->Some_0@ == joliet_name(ucs2_name@)->Some_0,
{
    let len = ucs2_name.len();
    if (len == 1 && ucs2_name[0] == 0) || (len == 2 && ucs2_name[0] == 0 && ucs2_name[1] == 0) {
        assert(ucs2_name@ =~= seq![0u8] || ucs2_name@ =~= seq![0u8, 0u8]);
        return Some(dot());
    }
    if (len == 1 && ucs2_name[0] == 1) || (len == 2 && ucs2_name[0] == 0 && ucs2_name[1] == 1) {
        assert(ucs2_name@ =~= seq![1u8] || ucs2_name@ =~= seq![0u8, 1u8]);
        return Some(dot_dot());
    }
    if len % 2 != 0 {
        return None;
    }
    let n = len / 2;
    let mut units: Vec<u16> = Vec::new();
    let mut i: usize = 0;
    while i < n
        invariant
            len == ucs2_name@.len(),
            len <= isize::MAX,
            n == len / 2,
            i <= n,
            units@ =~= be_units(ucs2_name@).subrange(0, i as int),
        decreases n - i,
    {
        units.push(read_be_u16(ucs2_name, 2 * i));
        i = i + 1;
    }
    assert(units@ =~= be_units(ucs2_name@));
    let mut out: Vec<u8> = vec![0u8; 3 * n];
    let written = match ucs2_decode(units.as_slice(), out.as_mut_slice()) {
        Some(w) => w,
        None => {
            return None;
        },
    };
    let ghost decoded = ucs2_to_utf8(units@);
    let mut end: usize = written;
    while end > 0 && out[end - 1] == 0
        invariant
            end <= written <= out@.len(),
            out@.subrange(0, written as int) == decoded,
            trim_nul(out@.subrange(0, end as int)) == trim_nul(decoded),
        decreases end,
    {
        assert(out@.subrange(0, end as int).drop_last() =~= out@.subrange(0, end - 1));
        end = end - 1;
    }
    out.truncate(end);
    assert(out@ =~= trim_nul(decoded));
    utf8_string(out.as_slice())
}

} // verus!
