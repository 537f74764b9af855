use vstd::prelude::*;

use crate::key::RegistryKey;

verus! {

/// The mathematical value of a registry entry: a key bound to the raw
/// bytes of a last-known location.
pub ghost struct EntryView {
    pub key: Seq<char>,
    pub path: Seq<u8>,
}

/// An immutable snapshot of one registry binding: a key together with
/// the location it resolved to when the snapshot was taken. It carries
/// no validity guarantee: the location may no longer exist on disk.
/// Whether it still does is a separate, explicit, point-in-time probe
/// by the caller, never implied by successful retrieval.
#[derive(Debug)]
pub struct RegistryEntry {
    pub(crate) key: RegistryKey,
    pub(crate) path: Vec<u8>,
}

impl View for RegistryEntry {
    type V = EntryView;

    closed spec fn view(&self) -> EntryView {
        EntryView { key: self.key@, path: self.path@ }
    }
}

/// The view of an entry is the view of its key bound to the view of
/// its location.
pub(crate) broadcast proof fn lemma_entry_view(e: RegistryEntry)
    ensures
        (#[trigger] e@).key == e.key@,
        e@.path == e.path@,
{
}

impl RegistryEntry {
    /// A snapshot pairing a key with a last-known location.
    pub fn new(key: RegistryKey, path: Vec<u8>) -> (r: Self)
        ensures
            r@.key == key@,
            r@.path == path@,
    {
        RegistryEntry { key, path }
    }

    /// The key under which the entry is registered.
    pub fn key(&self) -> (r: &RegistryKey)
        ensures
            r@ == self@.key,
    {
        &self.key
    }

    /// The raw bytes of the last-known location of the entry.
    pub fn path(&self) -> (r: &Vec<u8>)
        ensures
            r@ == self@.path,
    {
        &self.path
    }
}

impl PartialEq for RegistryEntry {
    fn eq(&self, other: &Self) -> (r: bool) {
        self.key == other.key && crate::bytes::bytes_eq(&self.path, &other.path)
    }
}

impl Eq for RegistryEntry {

}

impl vstd::std_specs::cmp::PartialEqSpecImpl for RegistryEntry {
    open spec fn obeys_eq_spec() -> bool {
        true
    }

    open spec fn eq_spec(&self, other: &Self) -> bool {
        self@ == other@
    }
}

} // verus!
