//! The byte buffer that the raw record codec reads from: `tokio_core::io::EasyBuf`, held in a
//! struct of this crate.
//!
//! Nothing in the trusted part of this file is proved: every contract there restates the
//! documentation of the method that the wrapper calls. The bytes a buffer holds are named
//! by [`easy_contents`].

#![allow(deprecated)]

use tokio_core::io::EasyBuf;
use vstd::prelude::*;

verus! {

/// A `tokio_core::io::EasyBuf`.
#[verifier::external_body]
pub struct EasyBuffer {
    inner: EasyBuf,
}

/// The bytes that a buffer holds, first to last.
pub uninterp spec fn easy_contents(buf: EasyBuffer) -> Seq<u8>;

/// `<EasyBuf as From<Vec<u8>>>::from` takes a vector over as a buffer with the same bytes.
#[verifier::external_body]
fn easy_from(bytes: Vec<u8>) -> (buf: EasyBuffer)
    ensures
        easy_contents(buf) == bytes@,
{
    EasyBuffer { inner: EasyBuf::from(bytes) }
}

/// `EasyBuf::len` is the number of bytes held.
#[verifier::external_body]
fn easy_len(buf: &EasyBuffer) -> (n: usize)
    ensures
        n == easy_contents(*buf).len(),
{
    buf.inner.len()
}

/// `EasyBuf::as_slice` borrows the held bytes as a slice.
#[verifier::external_body]
fn easy_slice(buf: &EasyBuffer) -> (s: &[u8])
    ensures
        s@ == easy_contents(*buf),
{
    buf.inner.as_slice()
}

/// `EasyBuf::drain_to` hands out the first `at` bytes and keeps the rest. It panics when
/// `at` exceeds the length.
#[verifier::external_body]
fn easy_drain_to(buf: &mut EasyBuffer, at: usize) -> (head: EasyBuffer)
    requires
        at <= easy_contents(*old(buf)).len(),
    ensures
        easy_contents(head) == easy_contents(*old(buf)).subrange(0, at as int),
        easy_contents(*final(buf)) == easy_contents(*old(buf)).subrange(
            at as int,
            easy_contents(*old(buf)).len() as int,
        ),
{
    EasyBuffer { inner: buf.inner.drain_to(at) }
}

impl EasyBuffer {
    /// A buffer that holds the given bytes.
    pub fn from_vec(bytes: Vec<u8>) -> (buf: EasyBuffer)
        ensures
            easy_contents(buf) == bytes@,
    {
        easy_from(bytes)
    }

    /// The number of bytes held.
    pub fn len(&self) -> (n: usize)
        ensures
            n == easy_contents(*self).len(),
    {
        easy_len(self)
    }

    /// The bytes held.
    pub fn as_slice(&self) -> (s: &[u8])
        ensures
            s@ == easy_contents(*self),
    {
        easy_slice(self)
    }

    /// Takes the first `at` bytes out of the buffer. There must be that many.
    pub fn drain_to(&mut self, at: usize) -> (head: EasyBuffer)
        requires
            at <= easy_contents(*old(self)).len(),
        ensures
            easy_contents(head) == easy_contents(*old(self)).subrange(0, at as int),
            easy_contents(*final(self)) == easy_contents(*old(self)).skip(at as int),
    {
        easy_drain_to(self, at)
    }
}

} // verus!
