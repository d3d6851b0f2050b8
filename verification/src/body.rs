//! Response body backed by a borrowed byte slice.

use vstd::prelude::*;

verus! {

/// Body of a response: a single in-memory slice, or nothing.
#[derive(Debug)]
pub struct Body<'a> {
    // An empty slice is stored as None.
    data: Option<&'a [u8]>,
}

impl<'a> View for Body<'a> {
    type V = Seq<u8>;

    closed spec fn view(&self) -> Seq<u8> {
        match self.data {
            Some(d) => d@,
            None => Seq::empty(),
        }
    }
}

impl<'a> Body<'a> {
    /// Creates a body sending the given bytes.
    pub fn new(data: &'a [u8]) -> (r: Self)
        ensures
            r@ == data@,
    {
        let data = if !data.is_empty() {
            Some(data)
        } else {
            None
        };
        Self { data }
    }

    /// Creates an empty body.
    pub fn empty() -> (r: Self)
        ensures
            r@ == Seq::<u8>::empty(),
    {
        Self { data: None }
    }

    /// The bytes this body sends.
    pub fn data(&self) -> (r: &'a [u8])
        ensures
            r@ == self@,
    {
        match self.data {
            Some(d) => d,
            None => &[],
        }
    }
}

} // verus!
