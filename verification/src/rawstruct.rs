//! Fixed-layout structs and the bytes they occupy on the wire.

use vstd::prelude::*;

verus! {

/// A struct with a fixed wire layout: every value occupies the same number of bytes, and the
/// bytes determine the value.
pub trait RawStruct: Sized {
    /// The number of bytes that a value occupies.
    spec fn size() -> nat;

    /// The bytes of a value, in wire order.
    spec fn layout(&self) -> Seq<u8>;

    /// Every layout has the fixed size.
    proof fn lemma_layout_len(&self)
        ensures
            self.layout().len() == Self::size(),
    ;

    fn as_bytes(&self) -> (bytes: Vec<u8>)
        ensures
            bytes@ == self.layout(),
    ;

    fn from_bytes(bytes: &[u8]) -> (value: Self)
        requires
            bytes@.len() >= Self::size(),
        ensures
            value.layout() == bytes@.subrange(0, Self::size() as int),
    ;
}

/// Return the bytes in the given struct.
pub fn as_bytes<T: RawStruct>(x: &T) -> (bytes: Vec<u8>)
    ensures
        bytes@ == x.layout(),
        bytes@.len() == T::size(),
{
    proof {
        x.lemma_layout_len();
    }
    x.as_bytes()
}

/// Read a struct off the front of a byte slice, which must be long enough to hold one.
pub fn from_bytes<T: RawStruct>(bytes: &[u8]) -> (value: T)
    requires
        bytes@.len() >= T::size(),
    ensures
        value.layout() == bytes@.subrange(0, T::size() as int),
{
    T::from_bytes(bytes)
}

} // verus!
