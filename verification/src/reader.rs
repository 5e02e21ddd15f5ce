//! Names of reader slots, as the card service reports them.

use vstd::prelude::*;

verus! {

/// The name of one reader slot. The library hands it back as it came and
/// reads nothing from it.
#[derive(Debug)]
pub struct ReaderName {
    bytes: Vec<u8>,
}

impl View for ReaderName {
    type V = Seq<u8>;

    closed spec fn view(&self) -> Seq<u8> {
        self.bytes@
    }
}

/// The names held by a list of readers, in its order.
pub open spec fn spec_names(readers: Seq<ReaderName>) -> Seq<Seq<u8>> {
    Seq::new(readers.len(), |i: int| readers[i]@)
}

impl ReaderName {
    /// A name made of the bytes the card service gave.
    pub fn new(bytes: Vec<u8>) -> (n: ReaderName)
        ensures
            n@ == bytes@,
    {
        ReaderName { bytes }
    }

    /// The bytes of the name.
    pub fn as_bytes(&self) -> (b: &Vec<u8>)
        ensures
            b@ == self@,
    {
        &self.bytes
    }

    /// A second copy of the name.
    pub fn duplicate(&self) -> (n: ReaderName)
        ensures
            n@ == self@,
    {
        let bytes: Vec<u8> = self.bytes.clone();
        ReaderName { bytes }
    }
}

} // verus!
