use vstd::prelude::*;

use crate::key::digest_of;
use crate::registry::lookup_model;
use crate::registry::register_model;
use crate::registry::unregister_model;

verus! {

/// Determinism: the key derived for a canonical path is a function of
/// the path's bytes alone, so deriving it twice, at different times or
/// in different processes, yields identical text.
pub proof fn lemma_key_derivation_deterministic(a: Seq<u8>, b: Seq<u8>)
    ensures
        a == b ==> digest_of(a) == digest_of(b),
{
}

/// Idempotent registration: registering a path leaves its key bound,
/// and registering it a second time changes nothing, so any number of
/// registrations of one path yield one binding and one stable key. A
/// first registration of an unbound key grows the relation by exactly
/// one binding.
pub proof fn lemma_register_idempotent(m: Map<Seq<char>, Seq<u8>>, path: Seq<u8>)
    ensures
        register_model(m, path).contains_key(digest_of(path)),
        register_model(register_model(m, path), path) == register_model(m, path),
        m.dom().finite() && !m.contains_key(digest_of(path)) ==> register_model(m, path).len()
            == m.len() + 1,
{
}

/// Round trip: after registering a path, looking up the key that
/// registration returned finds an entry whose location is the path that
/// was registered — provided the key was not already bound to some
/// other location beforehand (an existing binding is presumed to point
/// at the same target and is never re-verified).
pub proof fn lemma_register_lookup_round_trip(m: Map<Seq<char>, Seq<u8>>, path: Seq<u8>)
    ensures
        (m.contains_key(digest_of(path)) ==> m[digest_of(path)] == path) ==> lookup_model(
            register_model(m, path),
            digest_of(path),
        ) == Option::Some(path),
{
}

/// Removal: once a key is unregistered, lookup reports absence. That
/// the value a successful unregister returns equals what lookup would
/// have returned immediately beforehand is the unregister contract
/// itself: its result is the lookup in the relation as it stood.
pub proof fn lemma_unregister_removes(m: Map<Seq<char>, Seq<u8>>, key: Seq<char>)
    ensures
        lookup_model(unregister_model(m, key), key) == Option::<Seq<u8>>::None,
{
}

/// No-op on a missing key: unregistering a key that was never bound
/// reports absence, not an error, and leaves the relation as it was.
pub proof fn lemma_unregister_missing_noop(m: Map<Seq<char>, Seq<u8>>, key: Seq<char>)
    ensures
        !m.contains_key(key) ==> unregister_model(m, key) == m,
        !m.contains_key(key) ==> lookup_model(m, key) == Option::<Seq<u8>>::None,
{
}

/// The relation after registering two locations, one after the other,
/// in a registry with no bindings.
pub open spec fn two_registrations(p1: Seq<u8>, p2: Seq<u8>) -> Map<Seq<char>, Seq<u8>> {
    register_model(register_model(Map::<Seq<char>, Seq<u8>>::empty(), p1), p2)
}

/// Enumeration completeness: registering two distinct paths whose keys
/// differ, starting from an empty registry, yields exactly two
/// bindings, one per pair of key and path. Enumeration lists every
/// binding exactly once, in no guaranteed order, so it then yields
/// exactly those two entries.
pub proof fn lemma_two_registrations_complete(p1: Seq<u8>, p2: Seq<u8>)
    ensures
        digest_of(p1) != digest_of(p2) ==> two_registrations(p1, p2).dom() =~= set![
            digest_of(p1),
            digest_of(p2),
        ],
        digest_of(p1) != digest_of(p2) ==> two_registrations(p1, p2)[digest_of(p1)] == p1,
        digest_of(p1) != digest_of(p2) ==> two_registrations(p1, p2)[digest_of(p2)] == p2,
        digest_of(p1) != digest_of(p2) ==> two_registrations(p1, p2).len() == 2,
{
    if digest_of(p1) != digest_of(p2) {
        let k1 = digest_of(p1);
        let k2 = digest_of(p2);
        let m0 = Map::<Seq<char>, Seq<u8>>::empty();
        let m1 = register_model(m0, p1);
        let m2 = register_model(m1, p2);
        assert(m1 == m0.insert(k1, p1));
        assert(m2 == m1.insert(k2, p2));
        assert(m2.dom() =~= set![k1, k2]);
        assert(m0.dom() =~= Set::<Seq<char>>::empty());
        assert(m1.dom() =~= m0.dom().insert(k1));
        assert(m2.dom() =~= m1.dom().insert(k2));
    }
}

} // verus!
