//! What the verified code knows of `bytes::BytesMut`, the growable byte buffer that the
//! codecs read from and write to.
//!
//! Nothing in this file is proved: every contract restates the documentation of the method it
//! is attached to. The bytes a buffer holds are named by [`contents`].

use bytes::BytesMut;
use vstd::prelude::*;

verus! {

#[verifier::external_type_specification]
#[verifier::external_body]
pub struct ExBytesMut(bytes::BytesMut);

/// The bytes that a buffer holds, first to last.
pub uninterp spec fn contents(buf: BytesMut) -> Seq<u8>;

/// `BytesMut::new` makes a buffer of length 0.
pub assume_specification[ BytesMut::new ]() -> (buf: BytesMut)
    ensures
        contents(buf) == Seq::<u8>::empty(),
;

/// `BytesMut::len` is the number of bytes held.
pub assume_specification[ BytesMut::len ](buf: &BytesMut) -> (n: usize)
    ensures
        n == contents(*buf).len(),
;

/// `BytesMut::is_empty` tells whether the length is 0.
pub assume_specification[ BytesMut::is_empty ](buf: &BytesMut) -> (b: bool)
    ensures
        b == (contents(*buf).len() == 0),
;

/// `BytesMut::split_to` hands out the first `at` bytes and keeps the rest. It panics when
/// `at` exceeds the length.
pub assume_specification[ BytesMut::split_to ](buf: &mut BytesMut, at: usize) -> (head: BytesMut)
    requires
        at <= contents(*old(buf)).len(),
    ensures
        contents(head) == contents(*old(buf)).subrange(0, at as int),
        contents(*final(buf)) == contents(*old(buf)).subrange(
            at as int,
            contents(*old(buf)).len() as int,
        ),
;

/// `BytesMut::extend_from_slice` appends the given bytes, growing the buffer as needed. It
/// panics when the new length would not fit in `usize`.
pub assume_specification[ BytesMut::extend_from_slice ](buf: &mut BytesMut, extend: &[u8])
    requires
        contents(*old(buf)).len() + extend@.len() <= usize::MAX,
    ensures
        contents(*final(buf)) == contents(*old(buf)) + extend@,
;

/// `<BytesMut as AsRef<[u8]>>::as_ref` borrows the held bytes as a slice.
#[verifier::external_body]
pub(crate) fn slice_of(buf: &BytesMut) -> (s: &[u8])
    ensures
        s@ == contents(*buf),
{
    buf.as_ref()
}

/// `<BytesMut as From<Vec<u8>>>::from` takes a vector over as a buffer with the same bytes.
#[verifier::external_body]
pub(crate) fn from_vec(src: Vec<u8>) -> (buf: BytesMut)
    ensures
        contents(buf) == src@,
{
    BytesMut::from(src)
}

} // verus!
