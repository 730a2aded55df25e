//! Byte strings: a byte-string literal is a borrowed array of `u8` values,
//! not Unicode text.

use vstd::prelude::*;

verus! {

/// A byte literal denotes the byte value of its character, so the bytes of
/// `GET` are exactly the three values of `G`, `E` and `T`.
pub fn byte_strings() {
    let method: [u8; 3] = ['G' as u8, 'E' as u8, 'T' as u8];
    assert(method[0] == 71u8);
    assert(method[1] == 69u8);
    assert(method[2] == 84u8);
    let spelled: [u8; 3] = [71u8, 69u8, 84u8];
    assert(method@ =~= spelled@);
}

} // verus!
