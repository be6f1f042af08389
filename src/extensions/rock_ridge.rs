use vstd::prelude::*;
use crate::text::{dot, dot_dot, lossy_string, lossy_text};
use crate::types::{le_u32, read_le_u32};

verus! {

pub const ASCII_A: u8 = 0x41;
pub const ASCII_C: u8 = 0x43;
pub const ASCII_E: u8 = 0x45;
pub const ASCII_F: u8 = 0x46;
pub const ASCII_L: u8 = 0x4C;
pub const ASCII_M: u8 = 0x4D;
pub const ASCII_N: u8 = 0x4E;
pub const ASCII_P: u8 = 0x50;
pub const ASCII_S: u8 = 0x53;
pub const ASCII_T: u8 = 0x54;
pub const ASCII_X: u8 = 0x58;

/// A Rock Ridge entry that carries information.
pub enum Entity {
    /// An alternate name (`NM`).
    Name { name: String },
    /// POSIX file attributes (`PX`).
    PosixAttributes {
        posix_file_mode: u32,
        posix_file_links: u32,
        posix_file_user_id: u32,
        posix_file_group_id: u32,
        posix_file_serial_number: u32,
    },
}

/// What an [`Entity`] holds, with its name as characters.
pub enum EntityView {
    Name(Seq<char>),
    PosixAttributes(u32, u32, u32, u32, u32),
}

impl View for Entity {
    type V = EntityView;

    open spec fn view(&self) -> EntityView {
        match self {
            Entity::Name { name } => EntityView::Name(name@),
            Entity::PosixAttributes {
                posix_file_mode,
                posix_file_links,
                posix_file_user_id,
                posix_file_group_id,
                posix_file_serial_number,
            } => EntityView::PosixAttributes(
                *posix_file_mode,
                *posix_file_links,
                *posix_file_user_id,
                *posix_file_group_id,
                *posix_file_serial_number,
            ),
        }
    }
}

/// Why a System Use area could not be decoded.
#[derive(Copy, Clone, Debug, PartialEq, Eq, Structural)]
pub enum RockRidgeError {
    /// An entry with a tag this parser does not know; its two tag bytes.
    UnsupportedEntity(u8, u8),
    /// An entry too short for its kind, or one that runs past the area.
    Malformed,
}

/// One step of the parser at `i`.
pub enum Step {
    /// Fewer than three bytes are left: nothing more to read.
    End,
    /// An entry with nothing to report; parsing goes on at the index given.
    Skip(int),
    /// An entity, and the index after its entry.
    Emit(EntityView, int),
    /// The area cannot be decoded further.
    Fail(RockRidgeError),
}

/// The index `len` bytes after `i`, held at the end of `d`.
pub open spec fn advance(d: Seq<u8>, i: int, len: int) -> int {
    if i + len > d.len() {
        d.len() as int
    } else {
        i + len
    }
}

/// Whether the entry at `i` of `d` has the tag `a` `b`.
pub open spec fn is_tag(d: Seq<u8>, i: int, a: u8, b: u8) -> bool {
    d[i] == a && d[i + 1] == b
}

/// The entry at `i` of the System Use area `d`: a two-byte tag, a length
/// byte, then the body of that kind.
pub open spec fn rr_step(d: Seq<u8>, i: int) -> Step {
    if i + 2 >= d.len() {
        Step::End
    } else {
        let len = d[i + 2] as int;
        if is_tag(d, i, ASCII_S, ASCII_P) {
            Step::Skip(advance(d, i, 7))
        } else if is_tag(d, i, ASCII_P, ASCII_X) {
            if len < 4 || i + 45 > d.len() {
                Step::Fail(RockRidgeError::Malformed)
            } else {
                Step::Emit(
                    EntityView::PosixAttributes(
                        le_u32(d, i + 5),
                        le_u32(d, i + 13),
                        le_u32(d, i + 21),
                        le_u32(d, i + 29),
                        le_u32(d, i + 37),
                    ),
                    advance(d, i, len),
                )
            }
        } else if is_tag(d, i, ASCII_T, ASCII_F) || is_tag(d, i, ASCII_C, ASCII_E) || is_tag(d, i, ASCII_A, ASCII_L) {
            if len < 4 {
                Step::Fail(RockRidgeError::Malformed)
            } else {
                Step::Skip(advance(d, i, len))
            }
        } else if is_tag(d, i, ASCII_N, ASCII_M) {
            if len < 5 || i + 5 > d.len() {
                Step::Fail(RockRidgeError::Malformed)
            } else if d[i + 4] & 2 != 0 {
                Step::Emit(EntityView::Name(seq!['.']), advance(d, i, len))
            } else if d[i + 4] & 4 != 0 {
                Step::Emit(EntityView::Name(seq!['.', '.']), advance(d, i, len))
            } else if i + len > d.len() {
                Step::Fail(RockRidgeError::Malformed)
            } else {
                Step::Emit(
                    EntityView::Name(lossy_text(d.subrange(i + 5, i + len))),
                    i + len,
                )
            }
        } else {
            Step::Fail(RockRidgeError::UnsupportedEntity(d[i], d[i + 1]))
        }
    }
}

/// The next entity at or after `i`, past the entries with nothing to report.
pub open spec fn rr_next(d: Seq<u8>, i: int) -> Step
    decreases d.len() - i,
{
    match rr_step(d, i) {
        Step::Skip(j) => if i < j <= d.len() {
            rr_next(d, j)
        } else {
            Step::End
        },
        s => s,
    }
}

/// Every entity of `d` from `i` on, or the failure that stops the parse.
pub open spec fn rr_all(d: Seq<u8>, i: int) -> Result<Seq<EntityView>, RockRidgeError>
    decreases d.len() - i,
{
    match rr_next(d, i) {
        Step::Emit(e, j) => if i < j <= d.len() {
            match rr_all(d, j) {
                Ok(rest) => Ok(seq![e] + rest),
                Err(x) => Err(x),
            }
        } else {
            Ok(seq![e])
        },
        Step::Fail(x) => Err(x),
        _ => Ok(Seq::empty()),
    }
}

/// The first name among the entities of `d` from `i` on.
pub open spec fn rr_first_name(d: Seq<u8>, i: int) -> Result<Option<Seq<char>>, RockRidgeError>
    decreases d.len() - i,
{
    match rr_next(d, i) {
        Step::Emit(EntityView::Name(n), _) => Ok(Some(n)),
        Step::Emit(_, j) => if i < j <= d.len() {
            rr_first_name(d, j)
        } else {
            Ok(None)
        },
        Step::Fail(x) => Err(x),
        _ => Ok(None),
    }
}

/// Every entry moves the parser forward, and never past the end.
pub proof fn lemma_next_progress(d: Seq<u8>, i: int)
    ensures
        rr_next(d, i) matches Step::Emit(_, j) ==> i < j <= d.len(),
        !(rr_next(d, i) is Skip),
    decreases d.len() - i,
{
    match rr_step(d, i) {
        Step::Skip(j) => {
            if i < j <= d.len() {
                lemma_next_progress(d, j);
            }
        },
        _ => {},
    }
}

/// An `NM` entry with the current-directory flag names ".", and one with
/// the parent-directory flag names "..", whatever bytes follow the flags.
pub proof fn lemma_nm_dot_names(d: Seq<u8>, i: int)
    requires
        0 <= i,
        i + 5 <= d.len(),
        is_tag(d, i, ASCII_N, ASCII_M),
        d[i + 2] >= 5,
    ensures
        d[i + 4] & 2 != 0 ==> (rr_next(d, i) matches Step::Emit(EntityView::Name(n), _) && n
            == seq!['.']),
        d[i + 4] & 2 == 0 && d[i + 4] & 4 != 0 ==> (rr_next(d, i) matches Step::Emit(
            EntityView::Name(n),
            _,
        ) && n == seq!['.', '.']),
{
    assert(!is_tag(d, i, ASCII_S, ASCII_P));
    assert(!is_tag(d, i, ASCII_P, ASCII_X));
}

/// A lazy parser over a System Use area.
pub struct RockRidgeParser<'data> {
    data: &'data [u8],
    index: usize,
}

impl<'data> RockRidgeParser<'data> {
    /// The System Use area being parsed.
    pub closed spec fn data(&self) -> Seq<u8> {
        self.data@
    }

    /// Where the next entry starts.
    pub closed spec fn index(&self) -> int {
        self.index as int
    }

    /// The parser stands inside its area.
    pub closed spec fn wf(&self) -> bool {
        self.index <= self.data@.len()
    }

    /// A parser at the start of `data`.
    pub fn new(data: &'data [u8]) -> (r: Self)
        ensures
            r.wf(),
            r.data() == data@,
            r.index() == 0,
    {
        Self { data, index: 0 }
    }

    /// The next entity, `None` at the end of the area.
    pub fn next(&mut self) -> (r: Result<Option<Entity>, RockRidgeError>)
        requires
            old(self).wf(),
        ensures
            final(self).wf(),
            final(self).data() == old(self).data(),
            match rr_next(old(self).data(), old(self).index()) {
                Step::Emit(e, j) => r matches Ok(Some(x)) && x@ == e && final(self).index() == j,
                Step::Fail(x) => r == Err::<Option<Entity>, RockRidgeError>(x),
                _ => r matches Ok(None),
            },
    {
        let d = self.data;
        let n = d.len();
        loop
            invariant
                self.wf(),
                self.data == d,
                d@ == old(self).data@,
                n == d@.len(),
                rr_next(d@, old(self).index()) == rr_next(d@, self.index()),
            decreases n - self.index,
        {
            let i = self.index;
            if n < 3 || i >= n - 2 {
                return Ok(None);
            }
            let t0 = d[i];
            let t1 = d[i + 1];
            let len = d[i + 2] as usize;
            let step = if len > n - i {
                n
            } else {
                i + len
            };
            if t0 == ASCII_S && t1 == ASCII_P {
                self.index = if 7 > n - i {
                    n
                } else {
                    i + 7
                };
            } else if t0 == ASCII_P && t1 == ASCII_X {
                if len < 4 || n - i < 45 {
                    return Err(RockRidgeError::Malformed);
                }
                let e = Entity::PosixAttributes {
                    posix_file_mode: read_le_u32(d, i + 5),
                    posix_file_links: read_le_u32(d, i + 13),
                    posix_file_user_id: read_le_u32(d, i + 21),
                    posix_file_group_id: read_le_u32(d, i + 29),
                    posix_file_serial_number: read_le_u32(d, i + 37),
                };
                self.index = step;
                return Ok(Some(e));
            } else if (t0 == ASCII_T && t1 == ASCII_F) || (t0 == ASCII_C && t1 == ASCII_E) || (t0 == ASCII_A && t1
                == ASCII_L) {
                if len < 4 {
                    return Err(RockRidgeError::Malformed);
                }
                self.index = step;
            } else if t0 == ASCII_N && t1 == ASCII_M {
                if len < 5 || n - i < 5 {
                    return Err(RockRidgeError::Malformed);
                }
                let flags = d[i + 4];
                if flags & 2 != 0 {
                    self.index = step;
                    return Ok(Some(Entity::Name { name: dot() }));
                }
                if flags & 4 != 0 {
                    self.index = step;
                    return Ok(Some(Entity::Name { name: dot_dot() }));
                }
                if len > n - i {
                    return Err(RockRidgeError::Malformed);
                }
                let name = lossy_string(vstd::slice::slice_subrange(d, i + 5, i + len));
                self.index = i + len;
                return Ok(Some(Entity::Name { name }));
            } else {
                return Err(RockRidgeError::UnsupportedEntity(t0, t1));
            }
        }
    }
}

/// A lazy parser over the System Use area `data`.
pub fn parse<'data>(data: &'data [u8]) -> (r: RockRidgeParser<'data>)
    ensures
        r.wf(),
        r.data() == data@,
        r.index() == 0,
{
    RockRidgeParser::new(data)
}

/// The first name among the entities of `data`, reading no further.
pub fn first_name(data: &[u8]) -> (r: Result<Option<String>, RockRidgeError>)
    ensures
        match rr_first_name(data@, 0) {
            Ok(Some(n)) => r matches Ok(Some(s)) && s@ == n,
            Ok(None) => r matches Ok(None),
            Err(x) => r == Err::<Option<String>, RockRidgeError>(x),
        },
{
    let mut p = parse(data);
    loop
        invariant
            p.wf(),
            p.data() == data@,
            0 <= p.index() <= data@.len(),
            rr_first_name(data@, 0) == rr_first_name(data@, p.index()),
        decreases data@.len() - p.index(),
    {
        proof {
            lemma_next_progress(p.data(), p.index());
        }
        match p.next() {
            Ok(Some(Entity::Name { name })) => {
                return Ok(Some(name));
            },
            Ok(Some(_)) => {},
            Ok(None) => {
                return Ok(None);
            },
            Err(x) => {
                return Err(x);
            },
        }
    }
}

} // verus!
