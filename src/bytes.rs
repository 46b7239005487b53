//! The byte container that carries encoded records.
use serde_bytes::ByteBuf;
use vstd::prelude::*;

verus! {

#[verifier::external_type_specification]
#[verifier::external_body]
pub struct ExByteBuf(ByteBuf);

/// The bytes held by a `ByteBuf`, in order.
pub uninterp spec fn buf_bytes(b: ByteBuf) -> Seq<u8>;

/// Relies on `serde_bytes::ByteBuf::from`, which keeps the given vector as
/// the buffer's contents.
#[verifier::external_body]
pub(crate) fn wrap_bytes(v: Vec<u8>) -> (r: ByteBuf)
    ensures
        buf_bytes(r) == v@,
{
    ByteBuf::from(v)
}

/// Relies on `serde_bytes::ByteBuf::into_vec`, which hands back the vector
/// that holds the buffer's contents.
#[verifier::external_body]
pub(crate) fn unwrap_bytes(b: ByteBuf) -> (r: Vec<u8>)
    ensures
        r@ == buf_bytes(b),
{
    b.into_vec()
}

} // verus!
