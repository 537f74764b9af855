use vstd::prelude::*;

verus! {

/// A canonical (absolute, symlink-resolved) filesystem location, held as
/// the raw bytes of its representation so that locations that are not
/// valid text are supported. The registry never canonicalizes paths
/// itself: the caller supplies the canonical form, and the registry only
/// records and hashes these exact bytes.
pub struct CanonicalPath {
    bytes: Vec<u8>,
}

impl View for CanonicalPath {
    type V = Seq<u8>;

    closed spec fn view(&self) -> Seq<u8> {
        self.bytes@
    }
}

impl CanonicalPath {
    /// Wrap an already-canonical path, given as its raw bytes.
    pub fn new(bytes: Vec<u8>) -> (r: Self)
        ensures
            r@ == bytes@,
    {
        CanonicalPath { bytes }
    }

    /// The raw bytes of the path.
    pub fn bytes(&self) -> (r: &Vec<u8>)
        ensures
            r@ == self@,
    {
        &self.bytes
    }
}

} // verus!
