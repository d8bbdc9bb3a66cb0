//! Character-level helpers shared by the renderer and the reader.

use vstd::prelude::*;
use vstd::std_specs::iter::IteratorSpec;

verus! {

broadcast use vstd::string::group_string_axioms;

/// Relies on `String`'s `FromIterator` of characters: the collected
/// string holds exactly the characters of the vector, in order.
#[verifier::external_body]
pub fn string_from_chars(cs: &Vec<char>) -> (r: String)
    ensures
        r@ == cs@,
{
    cs.iter().collect()
}

/// Relies on `char::from_u32`: the conversion succeeds exactly on the
/// unicode scalar values, and returns the character with that code.
pub assume_specification[ char::from_u32 ](i: u32) -> (r: Option<char>)
    ensures
        (r is Some) <==> (i < 0xD800 || (0xE000 <= i && i < 0x110000)),
        r matches Some(c) ==> c as u32 == i,
;

/// The characters of a text, in order, as a vector.
pub fn chars_of(s: &str) -> (r: Vec<char>)
    ensures
        r@ == s@,
{
    let mut out: Vec<char> = Vec::new();
    let mut it = s.chars();
    loop
        invariant
            it.obeys_prophetic_iter_laws(),
            it.decrease() is Some,
            out@ + it.remaining() == s@,
        ensures
            out@ == s@,
        decreases it.decrease()->0,
    {
        match it.next() {
            Some(c) => {
                out.push(c);
                assert(out@ + it.remaining() =~= s@);
            },
            None => {
                assert(it.remaining().len() == 0);
                assert(out@ =~= out@ + it.remaining());
                break;
            },
        }
    }
    assert(out@ =~= s@);
    out
}

} // verus!
