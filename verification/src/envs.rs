use vstd::prelude::*;

use crate::entry::RegistryEntry;
use crate::key::RegistryKey;
use crate::path::CanonicalPath;
use crate::registry::LinkRegistry;
use crate::registry::lookup_model;
use crate::registry::register_model;
use crate::registry::unregister_model;

verus! {

/// The environments registered with a registry: a thin facade that
/// decides what reaches the registry. The surrounding layer supplies
/// canonical locations (an environment may have none) and does the
/// per-environment probing; the facade owns the relation.
#[derive(Debug)]
pub struct RegisteredEnvironments {
    registry: LinkRegistry,
}

impl RegisteredEnvironments {
    /// The relation the underlying registry holds.
    pub closed spec fn contents(self) -> Map<Seq<char>, Seq<u8>> {
        self.registry.contents()
    }

    /// Well-formed: the underlying registry is.
    pub closed spec fn wf(self) -> bool {
        self.registry.wf()
    }

    /// A facade over a registry with no bindings; establishing the
    /// registry's state directory on disk is the surrounding layer's
    /// step.
    pub fn new() -> (r: Self)
        ensures
            r.wf(),
            r.contents() == Map::<Seq<char>, Seq<u8>>::empty(),
    {
        RegisteredEnvironments { registry: LinkRegistry::open() }
    }

    /// Register an environment's location, if it has one; an
    /// environment without a location is skipped, which is success.
    pub fn register(&mut self, path: Option<CanonicalPath>)
        requires
            old(self).wf(),
        ensures
            final(self).wf(),
            match path {
                Option::Some(p) => final(self).contents() == register_model(
                    old(self).contents(),
                    p@,
                ),
                Option::None => *final(self) == *old(self),
            },
    {
        match path {
            Some(p) => {
                let _ = self.registry.register(&p);
            },
            None => (),
        }
    }

    /// Unregister a key; a key that is not bound is a no-op.
    pub fn unregister(&mut self, key: RegistryKey)
        requires
            old(self).wf(),
        ensures
            final(self).wf(),
            final(self).contents() == unregister_model(old(self).contents(), key@),
    {
        let _ = self.registry.unregister(&key);
    }

    /// Enumerate the registered environments: a snapshot of every
    /// binding, one entry per bound key, in no guaranteed order. The
    /// surrounding layer decides which of them still open as
    /// environments.
    pub fn try_iter(&self) -> (r: Vec<RegistryEntry>)
        requires
            self.wf(),
        ensures
            r@.len() == self.contents().len(),
            forall|i: int|
                0 <= i < r@.len() ==> lookup_model(self.contents(), (#[trigger] r@[i])@.key)
                    == Option::Some(r@[i]@.path),
            forall|k: Seq<char>|
                self.contents().contains_key(k) ==> exists|i: int|
                    0 <= i < r@.len() && (#[trigger] r@[i]@.key) == k,
            forall|i: int, j: int|
                0 <= i < j < r@.len() ==> (#[trigger] r@[i]@.key) != (#[trigger] r@[j]@.key),
    {
        self.registry.try_iter()
    }
}

impl From<LinkRegistry> for RegisteredEnvironments {
    fn from(registry: LinkRegistry) -> (r: Self) {
        RegisteredEnvironments { registry }
    }
}

impl vstd::std_specs::convert::FromSpecImpl<LinkRegistry> for RegisteredEnvironments {
    open spec fn obeys_from_spec() -> bool {
        true
    }

    closed spec fn from_spec(registry: LinkRegistry) -> RegisteredEnvironments {
        RegisteredEnvironments { registry }
    }
}

} // verus!
