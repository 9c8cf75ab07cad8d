//! A newtype around a byte vector, with tools for building it from strings
//! and editing it in place.

use vstd::prelude::*;

verus! {

use vstd::string::StrSliceExecFns;
use vstd::string::StringSliceAdditionalSpecFns;

/// A byte vector.
#[derive(Debug)]
pub struct Bytes(Vec<u8>);

impl View for Bytes {
    type V = Seq<u8>;

    closed spec fn view(&self) -> Seq<u8> {
        self.0@
    }
}

impl Bytes {
    /// Copies a byte slice.
    pub fn from_slice(bytes: &[u8]) -> (r: Bytes)
        ensures
            r@ == bytes@,
    {
        let mut v: Vec<u8> = Vec::new();
        let mut i: usize = 0;
        while i < bytes.len()
            invariant
                i <= bytes@.len(),
                v@ =~= bytes@.take(i as int),
            decreases bytes@.len() - i,
        {
            v.push(*vstd::slice::slice_index_get(bytes, i));
            i = i + 1;
        }
        proof {
            assert(v@ =~= bytes@);
        }
        Bytes(v)
    }

    /// The bytes of a string: its UTF-8 encoding.
    pub fn from_str(string: &str) -> (r: Bytes)
        ensures
            r@ == string.spec_bytes(),
    {
        Bytes(Self::cow_to_bytes(string))
    }

    /// A string's bytes as an owned vector.
    pub fn cow_to_bytes(string: &str) -> (r: Vec<u8>)
        ensures
            r@ == string.spec_bytes(),
    {
        string.as_bytes_vec()
    }

    /// The number of bytes held.
    pub fn len(&self) -> (n: usize)
        ensures
            n == self@.len(),
    {
        self.0.len()
    }

    /// The byte at `index`.
    pub fn byte_at(&self, index: usize) -> (b: u8)
        requires
            index < self@.len(),
        ensures
            b == self@[index as int],
    {
        self.0[index]
    }

    /// Inserts `element` at `index`, shifting the bytes after it.
    pub fn insert(&mut self, index: usize, element: u8)
        requires
            index <= old(self)@.len(),
        ensures
            final(self)@ == old(self)@.insert(index as int, element),
    {
        self.0.insert(index, element);
    }

    /// Removes the byte at `index`, shifting the bytes after it.
    pub fn remove(&mut self, index: usize)
        requires
            index < old(self)@.len(),
        ensures
            final(self)@ == old(self)@.remove(index as int),
    {
        self.0.remove(index);
    }
}

} // verus!
