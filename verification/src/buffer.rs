//! The byte buffer that framed input arrives in: `BytesMut` from the `bytes`
//! crate (as re-exported by `tokio_util`), seen through the bytes it holds.

use vstd::prelude::*;

use tokio_util::bytes::BytesMut;

verus! {

#[verifier::external_type_specification]
#[verifier::external_body]
pub struct ExBytesMut(tokio_util::bytes::BytesMut);

/// The bytes that a `BytesMut` holds, in order.
pub uninterp spec fn bytes_mut_contents(b: BytesMut) -> Seq<u8>;

/// `BytesMut::len`: the number of bytes the buffer holds.
#[verifier::external_body]
pub(crate) fn bytes_len(b: &BytesMut) -> (r: usize)
    ensures
        r == bytes_mut_contents(*b).len(),
{
    b.len()
}

/// `<BytesMut as AsRef<[u8]>>::as_ref`: the bytes the buffer holds, as a slice.
#[verifier::external_body]
pub(crate) fn bytes_as_slice(b: &BytesMut) -> (r: &[u8])
    ensures
        r@ == bytes_mut_contents(*b),
{
    b.as_ref()
}

/// `<BytesMut as Buf>::advance`: drops the first `cnt` bytes. The source panics
/// when `cnt` exceeds the number of bytes held, which `requires` rules out.
#[verifier::external_body]
pub(crate) fn bytes_advance(b: &mut BytesMut, cnt: usize)
    requires
        cnt <= bytes_mut_contents(*old(b)).len(),
    ensures
        bytes_mut_contents(*final(b)) == bytes_mut_contents(*old(b)).skip(cnt as int),
{
    tokio_util::bytes::Buf::advance(b, cnt)
}

} // verus!
