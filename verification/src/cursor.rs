//! The byte cursor that parse steps consume and combinators rewind.
//!
//! The cursor is a [`BytesMut`]. Verification sees it only through
//! [`contents`], the bytes it still holds, and takes two cursors with the
//! same contents for the same position in the input.
use bytes::BytesMut;
use vstd::prelude::*;

verus! {

/// Makes `bytes::BytesMut` known to the verifier, as a type it cannot look
/// into.
#[verifier::external_type_specification]
#[verifier::external_body]
pub struct ExBytesMut(BytesMut);

/// The bytes a cursor holds, front first.
///
/// Trusted: a name for the slice that a `BytesMut` dereferences to. Nothing
/// is claimed of it but what [`snapshot`] says.
pub uninterp spec fn contents(buf: BytesMut) -> Seq<u8>;

/// Whether a cursor found in state `left` counts as rewound to `entry`.
pub open spec fn rewound(entry: BytesMut, left: BytesMut) -> bool {
    contents(left) == contents(entry)
}

/// Takes a copy of the cursor to return to later.
///
/// Trusted: calls `BytesMut::clone`, which builds a fresh buffer from the
/// bytes of the one it is given. The contract claims that the copy holds the same
/// bytes, and nothing about its capacity or storage.
#[verifier::external_body]
pub(crate) fn snapshot(buf: &BytesMut) -> (copy: BytesMut)
    ensures
        contents(copy) == contents(*buf),
{
    buf.clone()
}

} // verus!
