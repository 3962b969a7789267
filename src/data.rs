use vstd::prelude::*;

verus! {

/// The bytes of a materialized data object.
#[derive(Debug)]
pub struct Data {
    bytes: Vec<u8>,
}

impl View for Data {
    type V = Seq<u8>;

    closed spec fn view(&self) -> Seq<u8> {
        self.bytes@
    }
}

impl Data {
    pub fn new(bytes: Vec<u8>) -> (r: Data)
        ensures
            r@ == bytes@,
    {
        Data { bytes }
    }

    pub fn bytes(&self) -> (r: &[u8])
        ensures
            r@ == self@,
    {
        self.bytes.as_slice()
    }

    pub fn len(&self) -> (r: usize)
        ensures
            r == self@.len(),
    {
        self.bytes.len()
    }
}

} // verus!
