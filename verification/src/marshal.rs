//! The serialization capability: any serializable value can report its exact
//! encoded byte length and write its encoding into a caller-provided buffer.

use vstd::prelude::*;
use crate::errors::MarshalError;

verus! {

/// Contract for values with a fixed, pre-computable byte encoding.
///
/// `spec_encoding` is the mathematical byte sequence a value encodes to;
/// `size` reports its exact length, and `serialize` writes it into the prefix
/// of a caller-supplied buffer that must be at least that long.
pub trait Marshal {
    /// The exact byte sequence this value encodes to.
    spec fn spec_encoding(&self) -> Seq<u8>;

    /// Exact encoded byte length.
    fn size(&self) -> (n: usize)
        ensures
            n == self.spec_encoding().len(),
    ;

    /// Writes the full encoding into the prefix of `dest`, leaving the bytes
    /// past the encoding unchanged. Fails with `BufferTooSmall`, writing
    /// nothing, when `dest` is shorter than the encoding.
    fn serialize(&self, dest: &mut Vec<u8>) -> (r: Result<(), MarshalError>)
        ensures
            r is Ok <==> old(dest)@.len() >= self.spec_encoding().len(),
            r is Ok ==> final(dest)@ == self.spec_encoding() + old(dest)@.skip(
                self.spec_encoding().len() as int,
            ),
            r is Err ==> final(dest)@ == old(dest)@ && r == Err::<(), MarshalError>(
                MarshalError::BufferTooSmall {
                    needed: self.spec_encoding().len() as usize,
                    available: old(dest)@.len() as usize,
                },
            ),
    ;
}

/// Overwrites `dest[offset .. offset + bytes.len()]` with `bytes`, leaving
/// every other position of `dest` unchanged.
pub(crate) fn write_at(dest: &mut Vec<u8>, offset: usize, bytes: &Vec<u8>)
    requires
        offset + bytes@.len() <= old(dest)@.len(),
    ensures
        final(dest)@ == old(dest)@.take(offset as int) + bytes@ + old(dest)@.skip(
            offset + bytes@.len(),
        ),
{
    let ghost orig: Seq<u8> = dest@;
    let dest_len = dest.len();
    let mut j: usize = 0;
    while j < bytes.len()
        invariant
            j <= bytes@.len(),
            offset + bytes@.len() <= orig.len(),
            orig.len() == dest_len,
            dest@.len() == orig.len(),
            forall|k: int|
                0 <= k < orig.len() && !(offset <= k < offset + j) ==> dest@[k] == orig[k],
            forall|k: int| 0 <= k < j ==> dest@[offset + k] == bytes@[k],
        decreases bytes@.len() - j,
    {
        dest.set(offset + j, bytes[j]);
        j = j + 1;
    }
    proof {
        assert(dest@ =~= orig.take(offset as int) + bytes@ + orig.skip(
            offset as int + bytes@.len() as int,
        ));
    }
}

} // verus!
