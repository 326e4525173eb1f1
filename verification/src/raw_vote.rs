//! Serialized votes, shared between their holders.

use std::sync::Arc;

use vstd::prelude::*;

verus! {

/// The bytes of a serialized signed vote.
#[derive(Debug)]
pub struct RawVoteData {
    bytes: Arc<Vec<u8>>,
}

impl View for RawVoteData {
    type V = Seq<u8>;

    closed spec fn view(&self) -> Seq<u8> {
        self.bytes@
    }
}

impl RawVoteData {
    /// The vote with the given bytes.
    pub fn new(data: Vec<u8>) -> (r: Self)
        ensures
            r@ == data@,
    {
        RawVoteData { bytes: Arc::new(data) }
    }

    /// The vote with the given bytes.
    pub fn from_vec(data: Vec<u8>) -> (r: Self)
        ensures
            r@ == data@,
    {
        RawVoteData { bytes: Arc::new(data) }
    }

    /// The bytes.
    pub fn as_bytes(&self) -> (r: &[u8])
        ensures
            r@ == self@,
    {
        self.bytes.as_slice()
    }

    /// The bytes as a buffer.
    pub fn as_raw_buffer(&self) -> (r: &Vec<u8>)
        ensures
            r@ == self@,
    {
        &self.bytes
    }

    /// Number of bytes.
    pub fn len(&self) -> (r: usize)
        ensures
            r == self@.len(),
    {
        self.bytes.len()
    }

    /// Whether there are no bytes.
    pub fn is_empty(&self) -> (r: bool)
        ensures
            r == (self@.len() == 0),
    {
        self.bytes.len() == 0
    }

    /// A copy of the bytes.
    pub fn to_raw_buffer(&self) -> (r: Vec<u8>)
        ensures
            r@ == self@,
    {
        (*self.bytes).clone()
    }

    /// Another holder of the same bytes.
    pub fn share(&self) -> (r: Self)
        ensures
            r@ == self@,
    {
        RawVoteData { bytes: self.bytes.clone() }
    }
}

impl Default for RawVoteData {
    fn default() -> (r: Self)
        ensures
            r@ == Seq::<u8>::empty(),
    {
        RawVoteData { bytes: Arc::new(Vec::new()) }
    }
}

} // verus!
