use vstd::prelude::*;
use crate::extensions::rock_ridge::{self as susp, lemma_next_progress, rr_all, EntityView, RockRidgeError};

verus! {

/// A Rock Ridge entry that carries information.
pub enum Entity {
    /// An alternate name (`NM`).
    Name { name: String },
    /// POSIX file attributes (`PX`).
    PosixAttributes {
        posix_file_mode: u32,
        posix_file_links: u32,
        posix_file_user_id: u32,
        posix_file_group_id: u32,
        posix_file_serial_number: u32,
    },
}

impl View for Entity {
    type V = EntityView;

    open spec fn view(&self) -> EntityView {
        match self {
            Entity::Name { name } => EntityView::Name(name@),
            Entity::PosixAttributes {
                posix_file_mode,
                posix_file_links,
                posix_file_user_id,
                posix_file_group_id,
                posix_file_serial_number,
            } => EntityView::PosixAttributes(
                *posix_file_mode,
                *posix_file_links,
                *posix_file_user_id,
                *posix_file_group_id,
                *posix_file_serial_number,
            ),
        }
    }
}

fn from_susp(e: susp::Entity) -> (r: Entity)
    ensures
        r@ == e@,
{
    match e {
        susp::Entity::Name { name } => Entity::Name { name },
        susp::Entity::PosixAttributes {
            posix_file_mode,
            posix_file_links,
            posix_file_user_id,
            posix_file_group_id,
            posix_file_serial_number,
        } => Entity::PosixAttributes {
            posix_file_mode,
            posix_file_links,
            posix_file_user_id,
            posix_file_group_id,
            posix_file_serial_number,
        },
    }
}

/// Parses a whole System Use area. `Ok(None)` when it holds no entity.
pub fn parse(data: &[u8]) -> (r: Result<Option<Vec<Entity>>, RockRidgeError>)
    ensures
        match rr_all(data@, 0) {
            Ok(s) => if s.len() == 0 {
                r matches Ok(None)
            } else {
                r matches Ok(Some(v)) && v@.len() == s.len() && forall|k: int|
                    0 <= k < s.len() ==> #[trigger] v@[k]@ == s[k]
            },
            Err(x) => r == Err::<Option<Vec<Entity>>, RockRidgeError>(x),
        },
{
    let mut parser = susp::parse(data);
    let mut entities: Vec<Entity> = Vec::new();
    let ghost d = data@;
    loop
        invariant
            parser.wf(),
            parser.data() == d,
            d == data@,
            0 <= parser.index() <= d.len(),
            rr_all(d, 0) == match rr_all(d, parser.index()) {
                Ok(rest) => Ok(entities@.map_values(|e: Entity| e@) + rest),
                Err(x) => Err(x),
            },
        decreases d.len() - parser.index(),
    {
        let ghost i = parser.index();
        proof {
            lemma_next_progress(d, i);
        }
        match parser.next() {
            Ok(Some(e)) => {
                let ghost ev = e@;
                let ghost before = entities@.map_values(|x: Entity| x@);
                entities.push(from_susp(e));
                proof {
                    let after = entities@.map_values(|x: Entity| x@);
                    assert(after =~= before.push(ev));
                    match rr_all(d, parser.index()) {
                        Ok(rest) => {
                            assert(before + (seq![ev] + rest) =~= after + rest);
                        },
                        _ => {},
                    }
                }
            },
            Ok(None) => {
                proof {
                    let m = entities@.map_values(|x: Entity| x@);
                    assert(m + Seq::<EntityView>::empty() =~= m);
                    assert(rr_all(d, 0) == Ok::<Seq<EntityView>, RockRidgeError>(m));
                }
                if entities.len() == 0 {
                    return Ok(None);
                } else {
                    return Ok(Some(entities));
                }
            },
            Err(x) => {
                return Err(x);
            },
        }
    }
}

} // verus!
