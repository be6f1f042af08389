use vstd::prelude::*;
use vstd::utf8::{decode_utf8, valid_utf8};

verus! {

/// The text that lossy UTF-8 decoding makes of `b`.
pub uninterp spec fn lossy_text(b: Seq<u8>) -> Seq<char>;

/// Relies on `String::from_utf8`: it accepts exactly the valid UTF-8
/// sequences and keeps the characters they encode.
#[verifier::external_body]
pub(crate) fn utf8_string(b: &[u8]) -> (r: Option<String>)
    ensures
        r is Some <==> valid_utf8(b@),
        r is Some ==> r->Some_0@ == decode_utf8(b@),
{
    String::from_utf8(b.to_vec()).ok()
}

/// Relies on `String::from_utf8_lossy`: valid UTF-8 comes back unchanged,
/// and the result depends on the bytes alone.
#[verifier::external_body]
pub(crate) fn lossy_string(b: &[u8]) -> (r: String)
    ensures
        r@ == lossy_text(b@),
        valid_utf8(b@) ==> r@ == decode_utf8(b@),
{
    String::from_utf8_lossy(b).into_owned()
}

/// The one-character text ".".
pub fn dot() -> (r: String)
    ensures
        r@ == seq!['.'],
{
    proof {
        reveal_strlit(".");
    }
    ".".to_owned()
}

/// The two-character text "..".
pub fn dot_dot() -> (r: String)
    ensures
        r@ == seq!['.', '.'],
{
    proof {
        reveal_strlit("..");
    }
    "..".to_owned()
}

/// The one-character text "/".
pub fn slash() -> (r: String)
    ensures
        r@ == seq!['/'],
{
    proof {
        reveal_strlit("/");
    }
    "/".to_owned()
}

} // verus!
