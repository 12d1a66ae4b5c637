use vstd::prelude::*;

verus! {

/// Declares bytes::Bytes, the reference-counted byte buffer, for use in
/// signatures and fields; its contents are reached through the trusted
/// accessors below.
#[verifier::external_type_specification]
#[verifier::external_body]
pub struct ExBytes(bytes::Bytes);

/// The bytes held by a reference-counted byte buffer.
pub uninterp spec fn bytes_data(b: bytes::Bytes) -> Seq<u8>;

/// Relies on the From<Vec<u8>> impl of bytes::Bytes: the buffer holds
/// exactly the given bytes.
#[verifier::external_body]
pub fn bytes_from_vec(v: Vec<u8>) -> (b: bytes::Bytes)
    ensures
        bytes_data(b) == v@,
{
    bytes::Bytes::from(v)
}

/// Relies on the slice to_vec of bytes::Bytes, through its Deref to [u8]:
/// the copy holds exactly the buffer's bytes.
#[verifier::external_body]
pub fn bytes_to_vec(b: &bytes::Bytes) -> (v: Vec<u8>)
    ensures
        v@ == bytes_data(*b),
{
    b.to_vec()
}

} // verus!
