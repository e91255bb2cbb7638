//! Byte buffers that are overwritten with zeros before their memory is given up.

use vstd::prelude::*;
use zeroize::Zeroize;

verus! {

/// The size of a [`ZeroizingBuffer`]: 64 KiB.
pub const MAX_BUF_SIZE: usize = 65536;

/// A buffer's worth of zeros.
pub open spec fn zeros() -> Seq<u8> {
    Seq::new(MAX_BUF_SIZE as nat, |i: int| 0u8)
}

/// `zeroize::Zeroize::zeroize` on a vector: overwrites the elements and the spare capacity with
/// zeros, then empties the vector. The contract tells that the vector is empty afterwards; what
/// the freed part of the allocation holds has no place in the vector's contents.
#[verifier::external_body]
fn wipe_vec(v: &mut Vec<u8>)
    ensures
        final(v)@ == Seq::<u8>::empty(),
    opens_invariants none
    no_unwind
{
    v.zeroize();
}

/// `zeroize::Zeroize::zeroize` on the slice of a vector's elements: sets every element to zero, and
/// keeps their number. It refuses more elements than `isize::MAX`, which a vector of bytes never
/// holds.
#[verifier::external_body]
fn wipe_elements(v: &mut Vec<u8>)
    ensures
        final(v)@ == Seq::new(old(v)@.len(), |i: int| 0u8),
    opens_invariants none
    no_unwind
{
    v.as_mut_slice().zeroize();
}

/// `zeroize::Zeroize::zeroize` on an array: sets every element to zero.
#[verifier::external_body]
fn wipe_array(a: &mut [u8; MAX_BUF_SIZE])
    ensures
        final(a)@ == zeros(),
    opens_invariants none
    no_unwind
{
    a.zeroize();
}

/// Collected bytes, zeroized when they are dropped. They leave unharmed only through
/// [`ZeroizingVec::into_inner`].
pub struct ZeroizingVec(Vec<u8>);

impl ZeroizingVec {
    pub closed spec fn view(&self) -> Seq<u8> {
        self.0@
    }

    /// An empty vector with room for `capacity` bytes.
    pub fn new(capacity: usize) -> (r: Self)
        requires
            capacity <= isize::MAX,
        ensures
            r@ == Seq::<u8>::empty(),
    {
        ZeroizingVec(Vec::with_capacity(capacity))
    }

    pub fn len(&self) -> (r: usize)
        ensures
            r == self@.len(),
    {
        self.0.len()
    }

    pub fn as_mut_vec(&mut self) -> (r: &mut Vec<u8>)
        ensures
            r@ == old(self)@,
            final(self)@ == final(r)@,
    {
        &mut self.0
    }

    /// Hands the bytes out. What is dropped afterwards is an empty vector.
    pub fn into_inner(self) -> (r: Vec<u8>)
        ensures
            r@ == self@,
    {
        let mut this = self;
        let mut taken: Vec<u8> = Vec::new();
        std::mem::swap(&mut this.0, &mut taken);
        taken
    }

    /// Overwrites the bytes with zeros, as many as there are.
    pub fn overwrite(&mut self)
        ensures
            final(self)@ == Seq::new(old(self)@.len(), |i: int| 0u8),
        opens_invariants none
        no_unwind
    {
        wipe_elements(&mut self.0);
    }

    /// Overwrites the bytes with zeros and gives them up.
    pub fn wipe(&mut self)
        ensures
            final(self)@ == Seq::<u8>::empty(),
        opens_invariants none
        no_unwind
    {
        self.overwrite();
        wipe_vec(&mut self.0);
    }
}

impl zeroize::ZeroizeOnDrop for ZeroizingVec {

}

impl Drop for ZeroizingVec {
    fn drop(&mut self)
        ensures
            final(self)@ == Seq::<u8>::empty(),
        opens_invariants none
        no_unwind
    {
        self.wipe();
    }
}

/// A temporary buffer of fixed size, zeroized when it is dropped.
pub struct ZeroizingBuffer([u8; MAX_BUF_SIZE]);

impl ZeroizingBuffer {
    pub closed spec fn view(&self) -> Seq<u8> {
        self.0@
    }

    pub fn new() -> (r: Self)
        ensures
            r@ == zeros(),
    {
        let bytes: [u8; MAX_BUF_SIZE] = [0u8; MAX_BUF_SIZE];
        assert(bytes@ =~= zeros());
        ZeroizingBuffer(bytes)
    }

    pub fn as_slice(&self) -> (r: &[u8])
        ensures
            r@ == self@,
            r@.len() == MAX_BUF_SIZE,
    {
        &self.0
    }

    pub fn as_mut_slice(&mut self) -> (r: &mut [u8])
        ensures
            r@ == old(self)@,
            r@.len() == MAX_BUF_SIZE,
            final(self)@ == final(r)@,
            final(self)@.len() == MAX_BUF_SIZE,
    {
        &mut self.0
    }

    /// Overwrites the whole buffer with zeros.
    pub fn wipe(&mut self)
        ensures
            final(self)@ == zeros(),
        opens_invariants none
        no_unwind
    {
        wipe_array(&mut self.0);
    }
}

impl zeroize::ZeroizeOnDrop for ZeroizingBuffer {

}

impl Drop for ZeroizingBuffer {
    fn drop(&mut self)
        ensures
            final(self)@ == zeros(),
        opens_invariants none
        no_unwind
    {
        self.wipe();
    }
}

/// A buffer's worth of zeros is 64 KiB, and every byte of it is zero.
pub proof fn law_zeros_are_zero()
    ensures
        zeros().len() == 64 * 1024,
        forall|i: int| 0 <= i < zeros().len() ==> #[trigger] zeros()[i] == 0,
{
}

} // verus!
