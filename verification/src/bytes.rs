//! Byte strings.

use vstd::prelude::*;

verus! {

/// Whether two byte strings are equal.
pub fn same_bytes(a: &Vec<u8>, b: &Vec<u8>) -> (same: bool)
    ensures
        same == (a@ == b@),
{
    let same = *a == *b;
    assert(same ==> a@ =~= b@);
    same
}

/// A copy of a byte string.
pub fn copy_of(bytes: &Vec<u8>) -> (copy: Vec<u8>)
    ensures
        copy@ == bytes@,
{
    vstd::slice::slice_to_vec(bytes.as_slice())
}

/// Appends bytes to a byte string.
pub fn append_bytes(out: &mut Vec<u8>, bytes: &Vec<u8>)
    ensures
        final(out)@ == old(out)@ + bytes@,
{
    out.extend_from_slice(bytes.as_slice());
    assert(out@ =~= old(out)@ + bytes@);
}

} // verus!
