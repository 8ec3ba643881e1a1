//! Where the engine gets the memory for an outbound probe.

use vstd::prelude::*;

verus! {

/// A provider of transmit buffers.
///
/// The region handed out belongs to the provider: it stays valid until the
/// provider is next asked for one, and may then be the same storage again.
pub trait Context {
    /// A writable region of at least `size` bytes.
    fn buffer(&mut self, size: usize) -> (region: &mut [u8])
        ensures
            region@.len() >= size,
    ;
}

/// A provider that keeps one growable buffer and hands it out every time.
pub struct BasicContext {
    buffer: Vec<u8>,
}

/// `bytes` cut down to its first `size` bytes, or filled up to `size` bytes
/// with zeros.
pub open spec fn resized(bytes: Seq<u8>, size: nat) -> Seq<u8> {
    Seq::new(
        size,
        |i: int|
            if i < bytes.len() {
                bytes[i]
            } else {
                0u8
            },
    )
}

impl View for BasicContext {
    type V = Seq<u8>;

    /// The bytes that the buffer holds.
    closed spec fn view(&self) -> Seq<u8> {
        self.buffer@
    }
}

impl Default for BasicContext {
    fn default() -> (context: BasicContext)
        ensures
            context@ == Seq::<u8>::empty(),
    {
        BasicContext { buffer: Vec::new() }
    }
}

impl Context for BasicContext {
    /// The buffer itself, brought to exactly `size` bytes: what it held is
    /// kept as far as it fits, and what is added is zero.
    fn buffer(&mut self, size: usize) -> (region: &mut [u8])
        ensures
            region@ == resized(old(self)@, size as nat),
            final(self)@ == final(region)@,
    {
        self.buffer.resize(size, 0);
        self.buffer.as_mut_slice()
    }
}

} // verus!
