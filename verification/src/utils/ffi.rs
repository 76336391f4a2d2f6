use vstd::prelude::*;
use vstd::string::StringExecFns;
use vstd::utf8::{decode_utf8, valid_utf8};

verus! {

/// `std::str::from_utf8`: the bytes read as a string when they are valid
/// UTF-8, `None` otherwise.  Claims what the std documentation gives: the
/// call succeeds exactly on well-formed UTF-8 and the string holds the
/// decoded characters.
#[verifier::external_body]
pub(crate) fn str_from_utf8(bytes: &[u8]) -> (r: Option<&str>)
    ensures
        r is Some <==> valid_utf8(bytes@),
        r matches Some(s) ==> s@ == decode_utf8(bytes@),
{
    match std::str::from_utf8(bytes) {
        Ok(s) => Some(s),
        Err(_) => None,
    }
}

/// The text a single shader source piece contributes: its characters when
/// the piece is present and valid UTF-8, nothing otherwise.
pub open spec fn piece_text(piece: Option<Vec<u8>>) -> Seq<char> {
    match piece {
        Some(bytes) => if valid_utf8(bytes@) {
            decode_utf8(bytes@)
        } else {
            Seq::empty()
        },
        None => Seq::empty(),
    }
}

/// The text of the first `n` pieces, in order.
pub open spec fn combined_text(pieces: Seq<Option<Vec<u8>>>, n: int) -> Seq<char>
    decreases n,
{
    if n <= 0 {
        Seq::empty()
    } else {
        combined_text(pieces, n - 1) + piece_text(pieces[n - 1])
    }
}

/// Joins the pieces that `glShaderSource` hands over into one source text:
/// a missing piece (a null pointer) or one that is not valid UTF-8 adds
/// nothing, every other piece adds its text, in order.
pub fn combine_gl_strings(pieces: &Vec<Option<Vec<u8>>>) -> (r: String)
    ensures
        r@ == combined_text(pieces@, pieces@.len() as int),
{
    let mut combined = String::new();
    let mut i: usize = 0;
    while i < pieces.len()
        invariant
            i <= pieces@.len(),
            combined@ == combined_text(pieces@, i as int),
        decreases pieces@.len() - i,
    {
        match &pieces[i] {
            Some(bytes) => {
                match str_from_utf8(bytes.as_slice()) {
                    Some(text) => {
                        combined.append(text);
                    },
                    None => {},
                }
            },
            None => {},
        }
        i = i + 1;
    }
    combined
}

} // verus!
