//! The few std text operations that the renderers build their lines with.
use vstd::prelude::*;
use vstd::utf8::is_scalar;

verus! {

/// Relies on `char::from_u32`: it gives the character whose scalar value is `i` when `i` is a
/// Unicode scalar value, and `None` otherwise.
pub assume_specification[ char::from_u32 ](i: u32) -> (r: Option<char>)
    ensures
        r is Some <==> is_scalar(i),
        r matches Some(c) ==> c as u32 == i,
;

/// Relies on `String::push`: it appends `c` to the end of `s`.
#[verifier::external_body]
pub(crate) fn push_char(s: &mut String, c: char)
    ensures
        final(s)@ == old(s)@.push(c),
{
    s.push(c);
}

} // verus!
